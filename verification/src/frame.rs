//! The frames that multiplex many TCP streams over one WebSocket. A frame is an
//! opcode, a stream id of four bytes in big-endian order, and what the opcode
//! calls for:
//!
//! - Open: the length of the host (two bytes), the host, the port (two bytes)
//! - Data: bytes of the stream
//! - Close: nothing

use vstd::prelude::*;

use crate::text;

verus! {

/// The opcode of a frame that opens a stream.
pub const OP_OPEN: u8 = 0x01;

/// The opcode of a frame that carries bytes of a stream.
pub const OP_DATA: u8 = 0x02;

/// The opcode of a frame that ends a stream.
pub const OP_CLOSE: u8 = 0x03;

/// A frame.
#[derive(Debug)]
pub enum Frame {
    Open { id: u32, host: Vec<u8>, port: u16 },
    Data { id: u32, payload: Vec<u8> },
    Close { id: u32 },
}

/// A [`Frame`] over sequences.
pub enum FrameView {
    Open { id: u32, host: Seq<u8>, port: u16 },
    Data { id: u32, payload: Seq<u8> },
    Close { id: u32 },
}

impl View for Frame {
    type V = FrameView;

    open spec fn view(&self) -> FrameView {
        match self {
            Frame::Open { id, host, port } => FrameView::Open { id: *id, host: host@, port: *port },
            Frame::Data { id, payload } => FrameView::Data { id: *id, payload: payload@ },
            Frame::Close { id } => FrameView::Close { id: *id },
        }
    }
}

/// Two bytes in big-endian order.
pub open spec fn be16(n: u16) -> Seq<u8> {
    seq![(n / 0x100) as u8, (n % 0x100) as u8]
}

/// Four bytes in big-endian order.
pub open spec fn be32(n: u32) -> Seq<u8> {
    seq![
        (n / 0x100_0000) as u8,
        (n / 0x1_0000 % 0x100) as u8,
        (n / 0x100 % 0x100) as u8,
        (n % 0x100) as u8,
    ]
}

/// The number that two bytes stand for in big-endian order.
pub open spec fn number16(a: u8, b: u8) -> u16 {
    (a * 0x100 + b) as u16
}

/// The number that four bytes stand for in big-endian order.
pub open spec fn number32(a: u8, b: u8, c: u8, d: u8) -> u32 {
    (a * 0x100_0000 + b * 0x1_0000 + c * 0x100 + d) as u32
}

/// The frame that opens a stream to a host and port. The length of the host has
/// two bytes; of a longer host, what is too much of its length is lost.
pub open spec fn open_bytes(id: u32, host: Seq<u8>, port: u16) -> Seq<u8> {
    seq![OP_OPEN] + be32(id) + be16((host.len() % 0x1_0000) as u16) + host + be16(port)
}

/// The frame that carries bytes of a stream.
pub open spec fn data_bytes(id: u32, payload: Seq<u8>) -> Seq<u8> {
    seq![OP_DATA] + be32(id) + payload
}

/// The frame that ends a stream.
pub open spec fn close_bytes(id: u32) -> Seq<u8> {
    seq![OP_CLOSE] + be32(id)
}

/// The frame that a byte string holds. What follows the port of an Open frame
/// and the id of a Close frame is ignored. A frame that is cut short or has
/// another opcode is none.
pub open spec fn frame_of(b: Seq<u8>) -> Option<FrameView> {
    if b.len() < 5 {
        None
    } else {
        let id = number32(b[1], b[2], b[3], b[4]);
        if b[0] == OP_OPEN {
            if b.len() < 7 {
                None
            } else {
                let n = number16(b[5], b[6]) as int;
                if b.len() < 9 + n {
                    None
                } else {
                    Some(
                        FrameView::Open {
                            id,
                            host: b.subrange(7, 7 + n),
                            port: number16(b[7 + n], b[8 + n]),
                        },
                    )
                }
            }
        } else if b[0] == OP_DATA {
            Some(FrameView::Data { id, payload: b.skip(5) })
        } else if b[0] == OP_CLOSE {
            Some(FrameView::Close { id })
        } else {
            None
        }
    }
}

fn push16(f: &mut Vec<u8>, n: u16)
    ensures
        final(f)@ == old(f)@ + be16(n),
{
    f.push((n / 0x100) as u8);
    f.push((n % 0x100) as u8);
    assert(f@ =~= old(f)@ + be16(n));
}

fn push32(f: &mut Vec<u8>, n: u32)
    ensures
        final(f)@ == old(f)@ + be32(n),
{
    f.push((n / 0x100_0000) as u8);
    f.push((n / 0x1_0000 % 0x100) as u8);
    f.push((n / 0x100 % 0x100) as u8);
    f.push((n % 0x100) as u8);
    assert(f@ =~= old(f)@ + be32(n));
}

/// The number that two bytes stand for in big-endian order.
pub fn read16(a: u8, b: u8) -> (r: u16)
    ensures
        r == number16(a, b),
{
    (a as u16) * 0x100 + b as u16
}

/// The number that four bytes stand for in big-endian order.
pub fn read32(a: u8, b: u8, c: u8, d: u8) -> (r: u32)
    ensures
        r == number32(a, b, c, d),
{
    (a as u32) * 0x100_0000 + (b as u32) * 0x1_0000 + (c as u32) * 0x100 + d as u32
}

/// The frame that opens a stream to a host and port.
pub fn open_frame(id: u32, host: &str, port: u16) -> (f: Vec<u8>)
    ensures
        f@ == open_bytes(id, text::utf8(host@), port),
{
    let host = host.as_bytes();
    let mut f: Vec<u8> = Vec::new();
    f.push(OP_OPEN);
    push32(&mut f, id);
    push16(&mut f, (host.len() % 0x1_0000) as u16);
    f.extend_from_slice(host);
    push16(&mut f, port);
    assert(f@ =~= open_bytes(id, host@, port));
    f
}

/// The frame that carries bytes of a stream.
pub fn data_frame(id: u32, data: &[u8]) -> (f: Vec<u8>)
    ensures
        f@ == data_bytes(id, data@),
{
    let mut f: Vec<u8> = Vec::new();
    f.push(OP_DATA);
    push32(&mut f, id);
    f.extend_from_slice(data);
    assert(f@ =~= data_bytes(id, data@));
    f
}

/// The frame that ends a stream.
pub fn close_frame(id: u32) -> (f: Vec<u8>)
    ensures
        f@ == close_bytes(id),
{
    let mut f: Vec<u8> = Vec::new();
    f.push(OP_CLOSE);
    push32(&mut f, id);
    assert(f@ =~= close_bytes(id));
    f
}

/// The frame that a byte string holds, if it holds one.
pub fn parse(b: &[u8]) -> (r: Option<Frame>)
    ensures
        frame_of(b@) == (match r {
            Some(f) => Some(f@),
            None => None,
        }),
{
    if b.len() < 5 {
        return None;
    }
    let op: u8 = b[0];
    let id = read32(b[1], b[2], b[3], b[4]);
    if op == OP_OPEN {
        if b.len() < 7 {
            return None;
        }
        let n = read16(b[5], b[6]) as usize;
        if b.len() < 9 + n {
            return None;
        }
        let host = vstd::slice::slice_to_vec(vstd::slice::slice_subrange(b, 7, 7 + n));
        Some(Frame::Open { id, host, port: read16(b[7 + n], b[8 + n]) })
    } else if op == OP_DATA {
        let payload = vstd::slice::slice_to_vec(vstd::slice::slice_subrange(b, 5, b.len()));
        assert(payload@ =~= b@.skip(5));
        Some(Frame::Data { id, payload })
    } else if op == OP_CLOSE {
        Some(Frame::Close { id })
    } else {
        None
    }
}

proof fn lemma_be16(n: u16)
    ensures
        number16(be16(n)[0], be16(n)[1]) == n,
{
}

proof fn lemma_be32(n: u32)
    ensures
        number32(be32(n)[0], be32(n)[1], be32(n)[2], be32(n)[3]) == n,
{
}

/// An Open frame is read as it was written, for a host whose length fits into
/// two bytes.
pub proof fn law_open_frame_is_read_back(id: u32, host: Seq<u8>, port: u16)
    requires
        host.len() < 0x1_0000,
    ensures
        frame_of(open_bytes(id, host, port)) == Some(FrameView::Open { id, host, port }),
{
    let b = open_bytes(id, host, port);
    let n = host.len() as int;
    lemma_be32(id);
    lemma_be16(n as u16);
    lemma_be16(port);
    assert(b.len() == 9 + n);
    assert(b[1] == be32(id)[0] && b[2] == be32(id)[1] && b[3] == be32(id)[2] && b[4] == be32(
        id,
    )[3]);
    assert(b[5] == be16(n as u16)[0] && b[6] == be16(n as u16)[1]);
    assert(b[7 + n] == be16(port)[0] && b[8 + n] == be16(port)[1]);
    assert(b.subrange(7, 7 + n) =~= host);
}

/// A Data frame is read as it was written.
pub proof fn law_data_frame_is_read_back(id: u32, payload: Seq<u8>)
    ensures
        frame_of(data_bytes(id, payload)) == Some(FrameView::Data { id, payload }),
{
    let b = data_bytes(id, payload);
    lemma_be32(id);
    assert(b[1] == be32(id)[0] && b[2] == be32(id)[1] && b[3] == be32(id)[2] && b[4] == be32(
        id,
    )[3]);
    assert(b.skip(5) =~= payload);
}

/// A Close frame is read as it was written.
pub proof fn law_close_frame_is_read_back(id: u32)
    ensures
        frame_of(close_bytes(id)) == Some(FrameView::Close { id }),
{
    let b = close_bytes(id);
    lemma_be32(id);
    assert(b[1] == be32(id)[0] && b[2] == be32(id)[1] && b[3] == be32(id)[2] && b[4] == be32(
        id,
    )[3]);
}

} // verus!
