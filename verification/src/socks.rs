//! The SOCKS5 handshake of a tunnel's proxy. The browser connects to it, and the
//! proxy learns which host and port to reach through the tunnel.
//!
//! The handshake is driven from outside: a state says how many bytes it needs,
//! and what it does with them.

use vstd::prelude::*;

use crate::crypto;
use crate::frame;
use crate::net;
use crate::text;

verus! {

/// How far a handshake got.
#[derive(Debug)]
pub enum Socks {
    /// The version and the number of authentication methods are due.
    Greeting,
    /// As many authentication methods are due.
    Methods(u8),
    /// The version, command, a reserved byte and the address type are due.
    Request,
    /// An IPv4 address is due.
    V4,
    /// The length of a host name is due.
    NameLength,
    /// A host name of this length is due.
    Name(u8),
    /// An IPv6 address is due.
    V6,
    /// The port on this host is due.
    Port(String),
}

/// A [`Socks`] with its text as a character sequence.
pub enum SocksView {
    Greeting,
    Methods(u8),
    Request,
    V4,
    NameLength,
    Name(u8),
    V6,
    Port(Seq<char>),
}

impl View for Socks {
    type V = SocksView;

    open spec fn view(&self) -> SocksView {
        match self {
            Socks::Greeting => SocksView::Greeting,
            Socks::Methods(n) => SocksView::Methods(*n),
            Socks::Request => SocksView::Request,
            Socks::V4 => SocksView::V4,
            Socks::NameLength => SocksView::NameLength,
            Socks::Name(n) => SocksView::Name(*n),
            Socks::V6 => SocksView::V6,
            Socks::Port(host) => SocksView::Port(host@),
        }
    }
}

/// Why a handshake is refused.
#[derive(Debug, Clone, Copy, PartialEq, Eq, Structural)]
pub enum Refusal {
    /// The client does not speak SOCKS5.
    NotSocks5,
    /// The command is not CONNECT.
    Command,
    /// The address type is unknown.
    AddressType,
}

/// What a handshake does with the bytes it needed.
#[derive(Debug)]
pub enum SocksStep {
    /// Send the reply, which may be empty, and go on.
    Continue { reply: Vec<u8>, next: Socks },
    /// The handshake is complete; the client wants to reach this host and port.
    Connect { host: String, port: u16 },
    /// Send the reply, which may be empty, and end the connection.
    Refuse { reply: Vec<u8>, why: Refusal },
}

/// A [`SocksStep`] over sequences.
pub enum StepView {
    Continue { reply: Seq<u8>, next: SocksView },
    Connect { host: Seq<char>, port: u16 },
    Refuse { reply: Seq<u8>, why: Refusal },
}

impl View for SocksStep {
    type V = StepView;

    open spec fn view(&self) -> StepView {
        match self {
            SocksStep::Continue { reply, next } => StepView::Continue { reply: reply@, next: next@ },
            SocksStep::Connect { host, port } => StepView::Connect { host: host@, port: *port },
            SocksStep::Refuse { reply, why } => StepView::Refuse { reply: reply@, why: *why },
        }
    }
}

/// A reply to a request, with its status and an address of zeros, which clients
/// ignore.
pub open spec fn reply_bytes(status: u8) -> Seq<u8> {
    seq![5, status, 0, 1, 0, 0, 0, 0, 0, 0]
}

/// How many bytes a state needs.
pub open spec fn needed(s: SocksView) -> nat {
    match s {
        SocksView::Greeting => 2,
        SocksView::Methods(n) => n as nat,
        SocksView::Request => 4,
        SocksView::V4 => 4,
        SocksView::NameLength => 1,
        SocksView::Name(n) => n as nat,
        SocksView::V6 => 16,
        SocksView::Port(_) => 2,
    }
}

/// The segments of an IPv6 address that stands in sixteen bytes.
pub open spec fn segments_of(b: Seq<u8>) -> Seq<u16> {
    Seq::new(8, |i: int| frame::number16(b[2 * i], b[2 * i + 1]))
}

/// What a state does with the bytes it needs.
pub open spec fn advanced(s: SocksView, b: Seq<u8>) -> StepView {
    match s {
        SocksView::Greeting => if b[0] != 5 {
            StepView::Refuse { reply: seq![], why: Refusal::NotSocks5 }
        } else {
            StepView::Continue { reply: seq![], next: SocksView::Methods(b[1]) }
        },
        // No authentication: the proxy is reachable on this machine only.
        SocksView::Methods(_) => StepView::Continue {
            reply: seq![5, 0],
            next: SocksView::Request,
        },
        SocksView::Request => if b[1] != 1 {
            StepView::Refuse { reply: reply_bytes(7), why: Refusal::Command }
        } else if b[3] == 1 {
            StepView::Continue { reply: seq![], next: SocksView::V4 }
        } else if b[3] == 3 {
            StepView::Continue { reply: seq![], next: SocksView::NameLength }
        } else if b[3] == 4 {
            StepView::Continue { reply: seq![], next: SocksView::V6 }
        } else {
            StepView::Refuse { reply: reply_bytes(8), why: Refusal::AddressType }
        },
        SocksView::V4 => StepView::Continue {
            reply: seq![],
            next: SocksView::Port(net::v4_text(b)),
        },
        SocksView::NameLength => StepView::Continue { reply: seq![], next: SocksView::Name(b[0]) },
        SocksView::Name(_) => StepView::Continue {
            reply: seq![],
            next: SocksView::Port(crypto::utf8_lossy(b)),
        },
        SocksView::V6 => StepView::Continue {
            reply: seq![],
            next: SocksView::Port(net::v6_text(segments_of(b))),
        },
        SocksView::Port(host) => StepView::Connect { host, port: frame::number16(b[0], b[1]) },
    }
}

/// What a byte string says as a handshake, however far it goes.
pub enum Handshake {
    /// More bytes are due.
    Incomplete,
    /// It is refused.
    Refused(Refusal),
    /// It is complete after `used` bytes.
    Connect { host: Seq<char>, port: u16, used: int },
}

/// What a request says, in a byte string in which it starts at `g`.
pub open spec fn request_of(b: Seq<u8>, g: int) -> Handshake {
    if b.len() < g + 4 {
        Handshake::Incomplete
    } else if b[g + 1] != 1 {
        Handshake::Refused(Refusal::Command)
    } else if b[g + 3] == 1 {
        if b.len() < g + 10 {
            Handshake::Incomplete
        } else {
            Handshake::Connect {
                host: net::v4_text(b.subrange(g + 4, g + 8)),
                port: frame::number16(b[g + 8], b[g + 9]),
                used: g + 10,
            }
        }
    } else if b[g + 3] == 3 {
        let n = b[g + 4] as int;
        if b.len() < g + 5 || b.len() < g + 7 + n {
            Handshake::Incomplete
        } else {
            Handshake::Connect {
                host: crypto::utf8_lossy(b.subrange(g + 5, g + 5 + n)),
                port: frame::number16(b[g + 5 + n], b[g + 6 + n]),
                used: g + 7 + n,
            }
        }
    } else if b[g + 3] == 4 {
        if b.len() < g + 22 {
            Handshake::Incomplete
        } else {
            Handshake::Connect {
                host: net::v6_text(segments_of(b.subrange(g + 4, g + 20))),
                port: frame::number16(b[g + 20], b[g + 21]),
                used: g + 22,
            }
        }
    } else {
        Handshake::Refused(Refusal::AddressType)
    }
}

/// What a byte string says as a handshake: a greeting with its methods, then a
/// CONNECT request with an address and a port.
pub open spec fn handshake(b: Seq<u8>) -> Handshake {
    let g = 2 + b[1] as int;
    if b.len() < 2 {
        Handshake::Incomplete
    } else if b[0] != 5 {
        Handshake::Refused(Refusal::NotSocks5)
    } else {
        request_of(b, g)
    }
}

/// How far a state is from the end, which bounds how often it advances.
pub open spec fn rank(s: SocksView) -> nat {
    match s {
        SocksView::Greeting => 6,
        SocksView::Methods(_) => 5,
        SocksView::Request => 4,
        SocksView::NameLength => 3,
        SocksView::Name(_) => 2,
        SocksView::V4 => 2,
        SocksView::V6 => 2,
        SocksView::Port(_) => 1,
    }
}

/// What becomes of a handshake in state `s`, `used` bytes in, that is driven
/// with the bytes of `b` as far as they go.
pub open spec fn driven(s: SocksView, b: Seq<u8>, used: int) -> Handshake
    decreases rank(s),
{
    let n = needed(s) as int;
    if b.len() < n {
        Handshake::Incomplete
    } else {
        match advanced(s, b.take(n)) {
            StepView::Connect { host, port } => Handshake::Connect { host, port, used: used + n },
            StepView::Refuse { reply, why } => Handshake::Refused(why),
            StepView::Continue { reply, next } => if rank(next) < rank(s) {
                driven(next, b.skip(n), used + n)
            } else {
                arbitrary()
            },
        }
    }
}

/// Whether the host that a state holds, if it holds one, fits into a frame that
/// opens a stream.
pub open spec fn holds_fitting_host(s: SocksView) -> bool {
    match s {
        SocksView::Port(host) => text::utf8(host).len() < 0x1_0000,
        _ => true,
    }
}

/// Whether the host that a step leads to, if it does to one, fits into a frame that
/// opens a stream.
pub open spec fn leads_to_fitting_host(step: StepView) -> bool {
    match step {
        StepView::Continue { reply, next } => holds_fitting_host(next),
        StepView::Connect { host, port } => text::utf8(host).len() < 0x1_0000,
        StepView::Refuse { .. } => true,
    }
}

/// A reply to a request.
pub fn reply_socks(status: u8) -> (r: Vec<u8>)
    ensures
        r@ == reply_bytes(status),
{
    let r: Vec<u8> = vec![5, status, 0, 1, 0, 0, 0, 0, 0, 0];
    assert(r@ =~= reply_bytes(status));
    r
}

/// Whether the stream through the tunnel could be opened, and the reply that
/// says so. Success is reported at once: there is no word from the other end
/// of the tunnel on whether it reached the host.
pub fn opened(sent: bool) -> (r: Vec<u8>)
    ensures
        r@ == reply_bytes(
            if sent {
                0
            } else {
                1
            },
        ),
{
    if sent {
        reply_socks(0)
    } else {
        reply_socks(1)
    }
}

impl Refusal {
    /// The reason in words.
    pub fn to_text(&self) -> (r: String)
        ensures
            r@ == (match self {
                Refusal::NotSocks5 => "not socks5"@,
                Refusal::Command => "unsupported socks command"@,
                Refusal::AddressType => "unsupported socks atyp"@,
            }),
    {
        match self {
            Refusal::NotSocks5 => text::owned("not socks5"),
            Refusal::Command => text::owned("unsupported socks command"),
            Refusal::AddressType => text::owned("unsupported socks atyp"),
        }
    }
}

fn go_on(next: Socks) -> (r: SocksStep)
    ensures
        r@ == (StepView::Continue { reply: seq![], next: next@ }),
{
    let reply: Vec<u8> = Vec::new();
    assert(reply@ =~= seq![]);
    SocksStep::Continue { reply, next }
}

impl Socks {
    /// How many bytes the state needs.
    pub fn needed(&self) -> (r: usize)
        ensures
            r == needed(self@),
    {
        match self {
            Socks::Greeting => 2,
            Socks::Methods(n) => *n as usize,
            Socks::Request => 4,
            Socks::V4 => 4,
            Socks::NameLength => 1,
            Socks::Name(n) => *n as usize,
            Socks::V6 => 16,
            Socks::Port(_) => 2,
        }
    }

    /// What the state does with the bytes it needs. A name in UTF-8 is taken as it is.
    /// Every host that a handshake comes to fits into a frame that opens a stream.
    pub fn advance(self, b: &[u8]) -> (r: SocksStep)
        requires
            b@.len() == needed(self@),
        ensures
            r@ == advanced(self@, b@),
            holds_fitting_host(self@) ==> leads_to_fitting_host(r@),
            self@ is Name && vstd::utf8::valid_utf8(b@) ==> r@ == (StepView::Continue {
                reply: seq![],
                next: SocksView::Port(vstd::utf8::decode_utf8(b@)),
            }),
    {
        match self {
            Socks::Greeting => {
                if b[0] != 5 {
                    let reply: Vec<u8> = Vec::new();
                    assert(reply@ =~= seq![]);
                    SocksStep::Refuse { reply, why: Refusal::NotSocks5 }
                } else {
                    go_on(Socks::Methods(b[1]))
                }
            },
            Socks::Methods(_) => {
                let reply: Vec<u8> = vec![5, 0];
                assert(reply@ =~= seq![5u8, 0]);
                SocksStep::Continue { reply, next: Socks::Request }
            },
            Socks::Request => {
                if b[1] != 1 {
                    SocksStep::Refuse { reply: reply_socks(7), why: Refusal::Command }
                } else if b[3] == 1 {
                    go_on(Socks::V4)
                } else if b[3] == 3 {
                    go_on(Socks::NameLength)
                } else if b[3] == 4 {
                    go_on(Socks::V6)
                } else {
                    SocksStep::Refuse { reply: reply_socks(8), why: Refusal::AddressType }
                }
            },
            Socks::V4 => {
                let o: [u8; 4] = [b[0], b[1], b[2], b[3]];
                assert(o@ =~= b@);
                let host = net::v4_string(&o);
                proof {
                    net::lemma_v4_len(b@);
                    text::lemma_utf8_len(host@);
                }
                go_on(Socks::Port(host))
            },
            Socks::NameLength => go_on(Socks::Name(b[0])),
            Socks::Name(_) => {
                let host = crypto::lossy_text(b);
                go_on(Socks::Port(host))
            },
            Socks::V6 => {
                let s: [u16; 8] = [
                    frame::read16(b[0], b[1]),
                    frame::read16(b[2], b[3]),
                    frame::read16(b[4], b[5]),
                    frame::read16(b[6], b[7]),
                    frame::read16(b[8], b[9]),
                    frame::read16(b[10], b[11]),
                    frame::read16(b[12], b[13]),
                    frame::read16(b[14], b[15]),
                ];
                assert(s@ =~= segments_of(b@));
                let host = net::v6_string(&s);
                proof {
                    net::lemma_v6_len(s@);
                    text::lemma_utf8_len(host@);
                }
                go_on(Socks::Port(host))
            },
            Socks::Port(host) => SocksStep::Connect { host, port: frame::read16(b[0], b[1]) },
        }
    }
}

proof fn lemma_port(host: Seq<char>, b: Seq<u8>, at: int)
    requires
        0 <= at <= b.len(),
    ensures
        driven(SocksView::Port(host), b.skip(at), at) == if b.len() < at + 2 {
            Handshake::Incomplete
        } else {
            Handshake::Connect { host, port: frame::number16(b[at], b[at + 1]), used: at + 2 }
        },
{
}

proof fn lemma_next(s: SocksView, b: Seq<u8>, at: int)
    requires
        0 <= at,
        at + needed(s) <= b.len(),
    ensures
        ({
            let n = needed(s) as int;
            match advanced(s, b.subrange(at, at + n)) {
                StepView::Connect { host, port } => driven(s, b.skip(at), at) == (
                Handshake::Connect { host, port, used: at + n }),
                StepView::Refuse { reply, why } => driven(s, b.skip(at), at) == Handshake::Refused(
                    why,
                ),
                StepView::Continue { reply, next } => driven(s, b.skip(at), at) == driven(
                    next,
                    b.skip(at + n),
                    at + n,
                ),
            }
        }),
{
    let n = needed(s) as int;
    assert(b.skip(at).take(n) =~= b.subrange(at, at + n));
    assert(b.skip(at).skip(n) =~= b.skip(at + n));
}

proof fn lemma_request(b: Seq<u8>, g: int)
    requires
        0 <= g <= b.len(),
    ensures
        driven(SocksView::Request, b.skip(g), g) == request_of(b, g),
{
    if b.len() >= g + 4 {
        lemma_next(SocksView::Request, b, g);
        let a = g + 4;
        if b[g + 1] != 1 {
        } else if b[g + 3] == 1 {
            if b.len() >= a + 4 {
                lemma_next(SocksView::V4, b, a);
                lemma_port(net::v4_text(b.subrange(a, a + 4)), b, a + 4);
            }
        } else if b[g + 3] == 3 {
            if b.len() >= a + 1 {
                lemma_next(SocksView::NameLength, b, a);
                let n = b[a] as int;
                if b.len() >= a + 1 + n {
                    lemma_next(SocksView::Name(b[a]), b, a + 1);
                    lemma_port(
                        crypto::utf8_lossy(b.subrange(a + 1, a + 1 + n)),
                        b,
                        a + 1 + n,
                    );
                }
            }
        } else if b[g + 3] == 4 {
            if b.len() >= a + 16 {
                lemma_next(SocksView::V6, b, a);
                lemma_port(net::v6_text(segments_of(b.subrange(a, a + 16))), b, a + 16);
            }
        }
    }
}

/// However a handshake arrives, driving the states with its bytes comes to what
/// the byte string says as a whole.
pub proof fn law_driving_reads_the_handshake(b: Seq<u8>)
    ensures
        driven(SocksView::Greeting, b, 0) == handshake(b),
{
    assert(b.skip(0) =~= b);
    if b.len() >= 2 {
        lemma_next(SocksView::Greeting, b, 0);
        let g = 2 + b[1] as int;
        if b[0] == 5 && b.len() >= g {
            lemma_next(SocksView::Methods(b[1]), b, 2);
            lemma_request(b, g);
        }
    }
}

} // verus!
