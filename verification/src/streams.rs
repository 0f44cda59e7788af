//! The streams that one WebSocket carries at a time, by their ids.

use std::collections::HashMap;

use vstd::prelude::*;

use crate::frame;
use crate::frame::FrameView;

verus! {

broadcast use vstd::std_specs::hash::group_hash_axioms;

/// The open streams of a WebSocket. `T` is where the bytes of a stream go.
pub struct Streams<T> {
    sinks: HashMap<u32, T>,
}

impl<T> View for Streams<T> {
    type V = Map<u32, T>;

    closed spec fn view(&self) -> Map<u32, T> {
        self.sinks@
    }
}

impl<T> Streams<T> {
    /// No streams.
    pub fn new() -> (r: Self)
        ensures
            r@ == Map::<u32, T>::empty(),
    {
        Streams { sinks: HashMap::new() }
    }

    /// Where the bytes of a stream go.
    pub fn get(&self, id: u32) -> (r: Option<&T>)
        ensures
            match r {
                Some(sink) => self@.contains_key(id) && *sink == self@[id],
                None => !self@.contains_key(id),
            },
    {
        self.sinks.get(&id)
    }

    /// Add a stream. It takes the place of one with the same id.
    pub fn insert(&mut self, id: u32, sink: T)
        ensures
            final(self)@ == old(self)@.insert(id, sink),
    {
        let _ = self.sinks.insert(id, sink);
    }

    /// Take a stream out, if it is there.
    pub fn remove(&mut self, id: u32)
        ensures
            final(self)@ == old(self)@.remove(id),
    {
        let _ = self.sinks.remove(&id);
        assert(self@ =~= old(self)@.remove(id));
    }

    /// Take all streams out.
    pub fn clear(&mut self)
        ensures
            final(self)@ == Map::<u32, T>::empty(),
    {
        self.sinks.clear();
    }
}

/// The frame that carries what was read from the socket of a stream: `None` once the
/// socket has ended or failed, when there is nothing more to carry.
pub open spec fn up(id: u32, read: Option<Seq<u8>>) -> Option<Seq<u8>> {
    match read {
        Some(bytes) => if bytes.len() == 0 {
            None
        } else {
            Some(frame::data_bytes(id, bytes))
        },
        None => None,
    }
}

/// The frame that is due for what was read from the socket of a stream.
#[derive(Debug)]
pub enum Up {
    /// It carries the bytes. More may follow.
    Data(Vec<u8>),
    /// It closes the stream, whose socket has ended or failed. Nothing follows.
    Close(Vec<u8>),
}

/// What was read from a socket, as a sequence.
pub open spec fn read_view(read: Option<&[u8]>) -> Option<Seq<u8>> {
    match read {
        Some(bytes) => Some(bytes@),
        None => None,
    }
}

/// The frame that is due for what was read from the socket of a stream. `read` is
/// `None` where reading failed.
pub fn pump_up(id: u32, read: Option<&[u8]>) -> (r: Up)
    ensures
        match r {
            Up::Data(f) => up(id, read_view(read)) == Some(f@),
            Up::Close(f) => up(id, read_view(read)) is None && f@ == frame::close_bytes(id),
        },
{
    match read {
        Some(bytes) => if bytes.len() == 0 {
            Up::Close(frame::close_frame(id))
        } else {
            Up::Data(frame::data_frame(id, bytes))
        },
        None => Up::Close(frame::close_frame(id)),
    }
}

/// The frames that are sent for what is read from the socket of a stream, up to the
/// one that closes it.
pub open spec fn sent(id: u32, reads: Seq<Option<Seq<u8>>>) -> Seq<Seq<u8>>
    decreases reads.len(),
{
    if reads.len() == 0 {
        seq![]
    } else {
        match up(id, reads[0]) {
            Some(f) => seq![f] + sent(id, reads.skip(1)),
            None => seq![frame::close_bytes(id)],
        }
    }
}

/// The bytes that the frames of a stream carry, one after the other.
pub open spec fn carried(id: u32, frames: Seq<Seq<u8>>) -> Seq<u8>
    decreases frames.len(),
{
    if frames.len() == 0 {
        seq![]
    } else {
        (match frame::frame_of(frames[0]) {
            Some(FrameView::Data { id: of, payload }) => if of == id {
                payload
            } else {
                seq![]
            },
            _ => seq![],
        }) + carried(id, frames.skip(1))
    }
}

/// The bytes of all chunks, one after the other.
pub open spec fn joined(chunks: Seq<Seq<u8>>) -> Seq<u8>
    decreases chunks.len(),
{
    if chunks.len() == 0 {
        seq![]
    } else {
        chunks[0] + joined(chunks.skip(1))
    }
}

/// What the reads of a socket are that gives these chunks and then ends or fails.
pub open spec fn reads_of(chunks: Seq<Seq<u8>>, end: Option<Seq<u8>>) -> Seq<Option<Seq<u8>>> {
    chunks.map_values(|c: Seq<u8>| Some(c)).push(end)
}

/// Once a socket has ended or failed, its stream is closed at once, after frames that
/// carry all that the socket gave, and nothing else.
pub proof fn law_stream_is_closed_at_its_end(id: u32, chunks: Seq<Seq<u8>>, end: Option<Seq<u8>>)
    requires
        forall|i: int| 0 <= i < chunks.len() ==> (#[trigger] chunks[i]).len() > 0,
        up(id, end) is None,
    ensures
        ({
            let frames = sent(id, reads_of(chunks, end));
            &&& frames.len() == chunks.len() + 1
            &&& frames.last() == frame::close_bytes(id)
            &&& carried(id, frames) == joined(chunks)
        }),
    decreases chunks.len(),
{
    let reads = reads_of(chunks, end);
    let frames = sent(id, reads);
    if chunks.len() == 0 {
        assert(reads[0] == end);
        frame::law_close_frame_is_read_back(id);
        assert(frames.skip(1) =~= seq![]);
        assert(carried(id, frames.skip(1)) =~= seq![]);
        assert(carried(id, frames) =~= joined(chunks));
    } else {
        let rest = chunks.skip(1);
        assert(reads.skip(1) =~= reads_of(rest, end));
        assert forall|i: int| 0 <= i < rest.len() implies (#[trigger] rest[i]).len() > 0 by {
            assert(rest[i] == chunks[i + 1]);
        }
        law_stream_is_closed_at_its_end(id, rest, end);
        assert(chunks[0].len() > 0);
        assert(reads[0] == Some(chunks[0]));
        let f = frame::data_bytes(id, chunks[0]);
        assert(frames == seq![f] + sent(id, reads.skip(1)));
        assert(frames.skip(1) =~= sent(id, reads.skip(1)));
        frame::law_data_frame_is_read_back(id, chunks[0]);
    }
}

} // verus!
