//! The chunk splitter: from raw bytes to `BeginChunk`, `Data` and `EndChunk`.
//!
//! A PNG stream is an 8-byte signature followed by chunks. A chunk is a 4-byte
//! big-endian length, a 4-byte type, that many bytes of data, and a 4-byte
//! check value. [`Dechunker::update`] absorbs bytes of one of these fields per
//! call and says how many it took; the caller hands the rest in again.
//!
//! What one call does is the spec function [`step`]; what a caller's loop over
//! one input does is [`crate::pipeline::run`].

use vstd::prelude::*;

use crate::scratch::{
    as_slice, extend_from_slice, new_check_value_buf, new_chunk_header_buf, Scratch,
    CHECK_VALUE_SIZE, CHUNK_HEADER_SIZE,
};
use crate::Error;

verus! {

/// The four bytes that name a chunk's kind.
pub type ChunkType = [u8; 4];

/// The start of a chunk: the length of its data and its type.
#[derive(Debug, PartialEq, Eq)]
pub struct ChunkHeader {
    pub len: u32,
    pub type_: ChunkType,
}

/// What the chunk splitter found.
#[derive(Debug, PartialEq, Eq)]
pub enum Event<'a> {
    /// A chunk header was read in full.
    BeginChunk(ChunkHeader),
    /// Some of the current chunk's data, never empty.
    Data(&'a [u8]),
    /// The current chunk's check value was read in full.
    EndChunk,
}

/// An [`Event`] with its borrowed bytes as a sequence.
pub enum EventView {
    BeginChunk(ChunkHeader),
    Data(Seq<u8>),
    EndChunk,
}

impl<'a> View for Event<'a> {
    type V = EventView;

    open spec fn view(&self) -> EventView {
        match self {
            Event::BeginChunk(h) => EventView::BeginChunk(*h),
            Event::Data(d) => EventView::Data(d@),
            Event::EndChunk => EventView::EndChunk,
        }
    }
}

/// The view of an event that may be absent.
pub open spec fn view_of(event: Option<Event>) -> Option<EventView> {
    match event {
        Some(e) => Some(e@),
        None => None,
    }
}

/// The signature that opens every PNG stream.
pub const PNG_SIGNATURE: [u8; 8] = [0x89, 0x50, 0x4E, 0x47, 0x0D, 0x0A, 0x1A, 0x0A];

/// The number that four bytes spell, most significant byte first.
pub open spec fn be_u32(b: Seq<u8>) -> u32
    recommends
        b.len() == 4,
{
    (b[0] as int * 0x100_0000 + b[1] as int * 0x1_0000 + b[2] as int * 0x100 + b[3] as int) as u32
}

/// The chunk header that eight bytes spell.
pub open spec fn header_of(b: Seq<u8>) -> ChunkHeader
    recommends
        b.len() == 8,
{
    ChunkHeader { len: be_u32(b.subrange(0, 4)), type_: [b[4], b[5], b[6], b[7]] }
}

/// Where the splitter stands in the stream.
pub enum FrameState {
    /// `pos` bytes of the signature have matched.
    Signature { pos: nat },
    /// `got` holds the first bytes of a chunk header.
    ChunkHeader { got: Seq<u8> },
    /// `remaining` bytes of the current chunk's data are still to come.
    InChunk { remaining: nat },
    /// `got` holds the first bytes of a check value.
    CheckValue { got: Seq<u8> },
}

impl FrameState {
    /// A field that is complete is never held: the state has moved on.
    pub open spec fn wf(self) -> bool {
        match self {
            FrameState::Signature { pos } => pos < 8,
            FrameState::ChunkHeader { got } => got.len() < 8,
            FrameState::InChunk { remaining } => remaining <= u32::MAX,
            FrameState::CheckValue { got } => got.len() < 4,
        }
    }

    /// How many bytes the current field still lacks.
    pub open spec fn wanted(self) -> nat {
        match self {
            FrameState::Signature { pos } => (8 - pos) as nat,
            FrameState::ChunkHeader { got } => (8 - got.len()) as nat,
            FrameState::InChunk { remaining } => remaining,
            FrameState::CheckValue { got } => (4 - got.len()) as nat,
        }
    }
}

/// What one call of [`Dechunker::update`] did.
pub struct Step {
    /// The state after the call.
    pub state: FrameState,
    /// How many bytes of the input were absorbed.
    pub consumed: nat,
    /// The event emitted, if any.
    pub event: Option<EventView>,
}

/// One call of [`Dechunker::update`] in state `s` on `input`: as many bytes
/// are taken as the current field lacks, or all of the input if it is shorter.
pub open spec fn step(s: FrameState, input: Seq<u8>) -> Result<Step, Error> {
    let n = if input.len() <= s.wanted() {
        input.len()
    } else {
        s.wanted()
    };
    let taken = input.subrange(0, n as int);
    match s {
        FrameState::Signature { pos } => {
            if taken != PNG_SIGNATURE@.subrange(pos as int, (pos + n) as int) {
                Err(Error::InvalidPngSignature)
            } else if pos + n == 8 {
                Ok(
                    Step {
                        state: FrameState::ChunkHeader { got: Seq::empty() },
                        consumed: n,
                        event: None,
                    },
                )
            } else {
                Ok(Step { state: FrameState::Signature { pos: pos + n }, consumed: n, event: None })
            }
        },
        FrameState::ChunkHeader { got } => {
            let all = got + taken;
            if all.len() == 8 {
                Ok(
                    Step {
                        state: FrameState::InChunk { remaining: header_of(all).len as nat },
                        consumed: n,
                        event: Some(EventView::BeginChunk(header_of(all))),
                    },
                )
            } else {
                Ok(Step { state: FrameState::ChunkHeader { got: all }, consumed: n, event: None })
            }
        },
        FrameState::InChunk { remaining } => {
            Ok(
                Step {
                    state: if remaining == n {
                        FrameState::CheckValue { got: Seq::empty() }
                    } else {
                        FrameState::InChunk { remaining: (remaining - n) as nat }
                    },
                    consumed: n,
                    event: if n == 0 {
                        None
                    } else {
                        Some(EventView::Data(taken))
                    },
                },
            )
        },
        FrameState::CheckValue { got } => {
            let all = got + taken;
            if all.len() == 4 {
                Ok(
                    Step {
                        state: FrameState::ChunkHeader { got: Seq::empty() },
                        consumed: n,
                        event: Some(EventView::EndChunk),
                    },
                )
            } else {
                Ok(Step { state: FrameState::CheckValue { got: all }, consumed: n, event: None })
            }
        },
    }
}

/// Whether the stream may end in state `s`: only between two chunks.
pub open spec fn may_end(s: FrameState) -> bool {
    s == (FrameState::ChunkHeader { got: Seq::empty() })
}

enum State {
    PngSignature { pos: usize },
    ChunkHeader(heapless::Vec<u8, CHUNK_HEADER_SIZE>),
    InChunk { remaining: usize },
    CheckValue(heapless::Vec<u8, CHECK_VALUE_SIZE>),
}

/// The chunk splitter.
pub struct Dechunker {
    state: State,
}

impl View for State {
    type V = FrameState;

    closed spec fn view(&self) -> FrameState {
        match self {
            State::PngSignature { pos } => FrameState::Signature { pos: *pos as nat },
            State::ChunkHeader(buf) => FrameState::ChunkHeader { got: buf.held() },
            State::InChunk { remaining } => FrameState::InChunk { remaining: *remaining as nat },
            State::CheckValue(buf) => FrameState::CheckValue { got: buf.held() },
        }
    }
}

impl View for Dechunker {
    type V = FrameState;

    closed spec fn view(&self) -> FrameState {
        self.state@
    }
}

fn min(a: usize, b: usize) -> (m: usize)
    ensures
        m == (if a <= b { a } else { b }),
{
    if a <= b {
        a
    } else {
        b
    }
}

/// Whether the first `n` bytes of `input` are the signature's bytes from `pos`.
fn continues_signature(input: &[u8], pos: usize, n: usize) -> (ok: bool)
    requires
        n <= input@.len(),
        pos + n <= 8,
    ensures
        ok == (input@.subrange(0, n as int) == PNG_SIGNATURE@.subrange(pos as int, pos + n)),
{
    let mut i: usize = 0;
    while i < n
        invariant
            i <= n <= input@.len(),
            pos + n <= 8,
            input@.subrange(0, i as int) == PNG_SIGNATURE@.subrange(pos as int, pos + i),
        decreases n - i,
    {
        if input[i] != PNG_SIGNATURE[pos + i] {
            assert(input@.subrange(0, n as int)[i as int] != PNG_SIGNATURE@.subrange(
                pos as int,
                pos + n,
            )[i as int]);
            return false;
        }
        assert(input@.subrange(0, i + 1) =~= input@.subrange(0, i as int).push(input@[i as int]));
        assert(PNG_SIGNATURE@.subrange(pos as int, pos + i + 1) =~= PNG_SIGNATURE@.subrange(
            pos as int,
            pos + i,
        ).push(PNG_SIGNATURE@[pos + i]));
        i = i + 1;
    }
    true
}

/// The big-endian number in the four bytes of `b`.
pub(crate) fn read_be_u32(b: &[u8]) -> (v: u32)
    requires
        b@.len() == 4,
    ensures
        v == be_u32(b@),
{
    let v: u32 = (b[0] as u32) * 0x100_0000 + (b[1] as u32) * 0x1_0000 + (b[2] as u32) * 0x100
        + (b[3] as u32);
    v
}

/// The chunk header in eight bytes.
fn read_header(b: &[u8]) -> (h: ChunkHeader)
    requires
        b@.len() == 8,
    ensures
        h == header_of(b@),
{
    let len = read_be_u32(&b[0..4]);
    let type_: ChunkType = [b[4], b[5], b[6], b[7]];
    assert(type_ =~= header_of(b@).type_);
    ChunkHeader { len, type_ }
}

impl Dechunker {
    /// A splitter at the start of a stream, before the signature.
    pub fn new() -> (d: Self)
        ensures
            d@ == (FrameState::Signature { pos: 0 }),
            d@.wf(),
    {
        Dechunker { state: State::PngSignature { pos: 0 } }
    }

    /// A splitter for a stream of chunks that has no signature in front.
    pub fn new_without_png_signature() -> (d: Self)
        ensures
            d@ == (FrameState::ChunkHeader { got: Seq::empty() }),
            d@.wf(),
    {
        Dechunker { state: State::ChunkHeader(new_chunk_header_buf()) }
    }

    /// Tells whether the stream may end here: it may between two chunks, and
    /// nowhere else.
    pub fn eof(&self) -> (r: Result<(), Error>)
        ensures
            may_end(self@) ==> r is Ok,
            !may_end(self@) ==> r == Err::<(), Error>(Error::UnfinishedChunk),
    {
        match &self.state {
            State::ChunkHeader(buf) => {
                if as_slice(buf).len() == 0 {
                    assert(buf.held() =~= Seq::<u8>::empty());
                    Ok(())
                } else {
                    Err(Error::UnfinishedChunk)
                }
            },
            _ => Err(Error::UnfinishedChunk),
        }
    }

    /// Absorbs the next bytes of `input` and reports how many were taken and
    /// what they completed. At most one event comes out of a call: the caller
    /// hands in the unconsumed rest again, before any new input.
    ///
    /// The call does what [`step`] says. It fails only while the signature is
    /// being read, on the first byte that differs from it, and then leaves the
    /// splitter as it was.
    pub fn update<'a>(&mut self, input: &'a [u8]) -> (r: Result<(usize, Option<Event<'a>>), Error>)
        requires
            old(self)@.wf(),
        ensures
            final(self)@.wf(),
            r matches Ok((n, _)) ==> n <= input@.len(),
            match step(old(self)@, input@) {
                Ok(s) => r matches Ok((n, event)) && n == s.consumed && view_of(event) == s.event
                    && final(self)@ == s.state,
                Err(e) => r == Err::<(usize, Option<Event<'a>>), Error>(e) && final(self)@ == old(
                    self,
                )@,
            },
    {
        match &mut self.state {
            State::PngSignature { pos } => {
                let n = min(input.len(), 8 - *pos);
                if !continues_signature(input, *pos, n) {
                    return Err(Error::InvalidPngSignature);
                }
                if *pos + n == 8 {
                    self.state = State::ChunkHeader(new_chunk_header_buf());
                } else {
                    *pos = *pos + n;
                }
                Ok((n, None))
            },
            State::ChunkHeader(buf) => {
                let n = min(input.len(), CHUNK_HEADER_SIZE - as_slice(buf).len());
                extend_from_slice(buf, &input[0..n]).unwrap();
                let bytes = as_slice(buf);
                if bytes.len() == CHUNK_HEADER_SIZE {
                    let header = read_header(bytes);
                    self.state = State::InChunk { remaining: header.len as usize };
                    Ok((n, Some(Event::BeginChunk(header))))
                } else {
                    Ok((n, None))
                }
            },
            State::InChunk { remaining } => {
                let n = min(input.len(), *remaining);
                if *remaining == n {
                    self.state = State::CheckValue(new_check_value_buf());
                } else {
                    *remaining = *remaining - n;
                }
                if n == 0 {
                    Ok((n, None))
                } else {
                    Ok((n, Some(Event::Data(&input[0..n]))))
                }
            },
            State::CheckValue(buf) => {
                let n = min(input.len(), CHECK_VALUE_SIZE - as_slice(buf).len());
                extend_from_slice(buf, &input[0..n]).unwrap();
                if as_slice(buf).len() == CHECK_VALUE_SIZE {
                    self.state = State::ChunkHeader(new_chunk_header_buf());
                    Ok((n, Some(Event::EndChunk)))
                } else {
                    Ok((n, None))
                }
            },
        }
    }
}

} // verus!
