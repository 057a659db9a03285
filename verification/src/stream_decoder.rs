//! The stream interpreter: from chunk events to the image's header, data and
//! end.
//!
//! [`StreamDecoder::update`] takes the events of the chunk splitter one by one.
//! It checks the declared length of the chunks it knows, reassembles the image
//! header, collects the palette, hands image data on untouched and skips every
//! other chunk. What one call does is the spec function [`step`].
//!
//! The interpreter relies on the order in which the chunk splitter emits its
//! events. [`accepts`] says which event may come in which state.

use vstd::pervasive::unreached;
use vstd::prelude::*;

use crate::dechunker;
use crate::dechunker::{be_u32, read_be_u32, ChunkHeader, ChunkType};
use crate::scratch::{
    as_slice, extend_from_slice, new_image_header_buf, Scratch, IMAGE_HEADER_SIZE, PALETTE_SIZE,
};
use crate::{Error, Palette};

verus! {

/// The contents of an image header chunk.
#[derive(Debug, PartialEq, Eq)]
pub struct ImageHeader {
    pub width: u32,
    pub height: u32,
    pub bit_depth: u8,
    pub colour_type: u8,
    pub compression_method: u8,
    pub filter_method: u8,
    pub interlace_method: u8,
}

/// The type of the image header chunk.
pub const IHDR: ChunkType = [0x49, 0x48, 0x44, 0x52];

/// The type of the palette chunk.
pub const PLTE: ChunkType = [0x50, 0x4C, 0x54, 0x45];

/// The type of an image data chunk.
pub const IDAT: ChunkType = [0x49, 0x44, 0x41, 0x54];

/// The type of the chunk that ends the image.
pub const IEND: ChunkType = [0x49, 0x45, 0x4E, 0x44];

/// What the stream interpreter found.
#[derive(Debug, PartialEq, Eq)]
pub enum Event<'a> {
    /// The image header chunk has ended; this is what it held.
    ImageHeader(ImageHeader),
    /// Some bytes of image data, still compressed.
    ImageData(&'a [u8]),
    /// The end chunk has ended.
    End,
}

/// An [`Event`] with its borrowed bytes as a sequence.
pub enum EventView {
    ImageHeader(ImageHeader),
    ImageData(Seq<u8>),
    End,
}

impl<'a> View for Event<'a> {
    type V = EventView;

    open spec fn view(&self) -> EventView {
        match self {
            Event::ImageHeader(h) => EventView::ImageHeader(*h),
            Event::ImageData(d) => EventView::ImageData(d@),
            Event::End => EventView::End,
        }
    }
}

/// The view of an event that may be absent.
pub open spec fn view_of(event: Option<Event>) -> Option<EventView> {
    match event {
        Some(e) => Some(e@),
        None => None,
    }
}

/// The image header that thirteen bytes spell: width and height as big-endian
/// numbers, then five single bytes.
pub open spec fn image_header_of(b: Seq<u8>) -> ImageHeader
    recommends
        b.len() == 13,
{
    ImageHeader {
        width: be_u32(b.subrange(0, 4)),
        height: be_u32(b.subrange(4, 8)),
        bit_depth: b[8],
        colour_type: b[9],
        compression_method: b[10],
        filter_method: b[11],
        interlace_method: b[12],
    }
}

/// Which chunk the interpreter is in.
pub enum Phase {
    /// Between two chunks.
    BeforeChunk,
    /// In the image header chunk, of which `got` has arrived.
    ImageHeader { got: Seq<u8> },
    /// In a palette chunk.
    Palette,
    /// In an image data chunk.
    ImageData,
    /// In a chunk that is skipped.
    Ignored,
    /// In the end chunk.
    End,
}

/// The interpreter's state: the chunk it is in and the palette bytes it has
/// collected.
pub struct DecoderState {
    pub phase: Phase,
    pub palette: Seq<u8>,
}

/// Whether `event` may come in state `s`. A chunk begins only between two
/// chunks, and only there; the image header chunk carries exactly 13 bytes;
/// the palette never outgrows its 768 bytes; the end chunk carries no data.
pub open spec fn accepts(s: DecoderState, event: dechunker::EventView) -> bool {
    match s.phase {
        Phase::BeforeChunk => event is BeginChunk,
        Phase::ImageHeader { got } => match event {
            dechunker::EventView::BeginChunk(_) => false,
            dechunker::EventView::Data(d) => got.len() + d.len() <= IMAGE_HEADER_SIZE,
            dechunker::EventView::EndChunk => got.len() == IMAGE_HEADER_SIZE,
        },
        Phase::Palette => match event {
            dechunker::EventView::BeginChunk(_) => false,
            dechunker::EventView::Data(d) => s.palette.len() + d.len() <= PALETTE_SIZE,
            dechunker::EventView::EndChunk => true,
        },
        Phase::ImageData => !(event is BeginChunk),
        Phase::Ignored => !(event is BeginChunk),
        Phase::End => event is EndChunk,
    }
}

/// The chunk that begins with `header`, or the error that its declared length
/// gives.
pub open spec fn enter(header: ChunkHeader) -> Result<Phase, Error> {
    if header.type_ == IHDR {
        if header.len == IMAGE_HEADER_SIZE {
            Ok(Phase::ImageHeader { got: Seq::empty() })
        } else {
            Err(Error::InvalidImageHeaderLength)
        }
    } else if header.type_ == IDAT {
        Ok(Phase::ImageData)
    } else if header.type_ == IEND {
        if header.len == 0 {
            Ok(Phase::End)
        } else {
            Err(Error::InvalidEndChunkSize)
        }
    } else if header.type_ == PLTE {
        if header.len % 3 == 0 && header.len <= PALETTE_SIZE {
            Ok(Phase::Palette)
        } else {
            Err(Error::InvalidPaletteChunkSize)
        }
    } else {
        Ok(Phase::Ignored)
    }
}

/// What one call of [`StreamDecoder::update`] did.
pub struct Step {
    /// The state after the call.
    pub state: DecoderState,
    /// The event emitted, if any.
    pub event: Option<EventView>,
}

/// One call of [`StreamDecoder::update`] in state `s` on an `event` that `s`
/// accepts.
pub open spec fn step(s: DecoderState, event: dechunker::EventView) -> Result<Step, Error> {
    match event {
        dechunker::EventView::BeginChunk(header) => match enter(header) {
            Ok(phase) => Ok(Step { state: DecoderState { phase, palette: s.palette }, event: None }),
            Err(e) => Err(e),
        },
        dechunker::EventView::Data(d) => match s.phase {
            Phase::ImageHeader { got } => Ok(
                Step {
                    state: DecoderState {
                        phase: Phase::ImageHeader { got: got + d },
                        palette: s.palette,
                    },
                    event: None,
                },
            ),
            Phase::Palette => Ok(
                Step {
                    state: DecoderState { phase: Phase::Palette, palette: s.palette + d },
                    event: None,
                },
            ),
            Phase::ImageData => Ok(Step { state: s, event: Some(EventView::ImageData(d)) }),
            _ => Ok(Step { state: s, event: None }),
        },
        dechunker::EventView::EndChunk => Ok(
            Step {
                state: DecoderState { phase: Phase::BeforeChunk, palette: s.palette },
                event: match s.phase {
                    Phase::ImageHeader { got } => Some(EventView::ImageHeader(image_header_of(got))),
                    Phase::End => Some(EventView::End),
                    _ => None,
                },
            },
        ),
    }
}

enum State {
    BeforeChunk,
    IHDR(heapless::Vec<u8, IMAGE_HEADER_SIZE>),
    PLTE,
    IDAT,
    IgnoredChunk,
    IEND,
}

impl View for State {
    type V = Phase;

    closed spec fn view(&self) -> Phase {
        match self {
            State::BeforeChunk => Phase::BeforeChunk,
            State::IHDR(buf) => Phase::ImageHeader { got: buf.held() },
            State::PLTE => Phase::Palette,
            State::IDAT => Phase::ImageData,
            State::IgnoredChunk => Phase::Ignored,
            State::IEND => Phase::End,
        }
    }
}

/// The stream interpreter.
pub struct StreamDecoder {
    state: State,
    palette: Palette,
}

impl View for StreamDecoder {
    type V = DecoderState;

    closed spec fn view(&self) -> DecoderState {
        DecoderState { phase: self.state@, palette: self.palette@ }
    }
}

/// Whether two chunk types are the same.
fn same_type(a: &ChunkType, b: &ChunkType) -> (same: bool)
    ensures
        same == (*a == *b),
{
    let same = a[0] == b[0] && a[1] == b[1] && a[2] == b[2] && a[3] == b[3];
    proof {
        if same {
            assert(*a =~= *b);
        }
    }
    same
}

/// The image header in thirteen bytes.
fn read_image_header(b: &[u8]) -> (h: ImageHeader)
    requires
        b@.len() == 13,
    ensures
        h == image_header_of(b@),
{
    ImageHeader {
        width: read_be_u32(&b[0..4]),
        height: read_be_u32(&b[4..8]),
        bit_depth: b[8],
        colour_type: b[9],
        compression_method: b[10],
        filter_method: b[11],
        interlace_method: b[12],
    }
}

impl StreamDecoder {
    /// An interpreter between two chunks, with an empty palette.
    pub fn new() -> (d: Self)
        ensures
            d@ == (DecoderState { phase: Phase::BeforeChunk, palette: Seq::empty() }),
    {
        StreamDecoder { state: State::BeforeChunk, palette: Palette::new() }
    }

    /// The palette as far as it has been received.
    pub fn palette(&self) -> (p: &Palette)
        ensures
            p@ == self@.palette,
    {
        &self.palette
    }

    /// Tells whether the stream may end here. This layer lets it end anywhere.
    pub fn eof(&self) -> (r: Result<(), Error>)
        ensures
            r is Ok,
    {
        Ok(())
    }

    /// Whether `input` may be handed to [`StreamDecoder::update`] now.
    pub fn accepts(&self, input: &dechunker::Event) -> (ok: bool)
        ensures
            ok == accepts(self@, input@),
    {
        match &self.state {
            State::BeforeChunk => match input {
                dechunker::Event::BeginChunk(_) => true,
                _ => false,
            },
            State::IHDR(buf) => match input {
                dechunker::Event::BeginChunk(_) => false,
                dechunker::Event::Data(d) => d.len() <= IMAGE_HEADER_SIZE && as_slice(buf).len()
                    <= IMAGE_HEADER_SIZE - d.len(),
                dechunker::Event::EndChunk => as_slice(buf).len() == IMAGE_HEADER_SIZE,
            },
            State::PLTE => match input {
                dechunker::Event::BeginChunk(_) => false,
                dechunker::Event::Data(d) => d.len() <= PALETTE_SIZE && self.palette.len()
                    <= PALETTE_SIZE - d.len(),
                dechunker::Event::EndChunk => true,
            },
            State::IDAT => match input {
                dechunker::Event::BeginChunk(_) => false,
                _ => true,
            },
            State::IgnoredChunk => match input {
                dechunker::Event::BeginChunk(_) => false,
                _ => true,
            },
            State::IEND => match input {
                dechunker::Event::EndChunk => true,
                _ => false,
            },
        }
    }

    /// Takes the next event of the chunk splitter. Nothing is ever left over:
    /// the first component of the result is `None`.
    ///
    /// The call does what [`step`] says. It fails only where a chunk begins
    /// whose declared length its type does not allow, and then leaves the
    /// interpreter as it was.
    pub fn update<'a>(&mut self, input: dechunker::Event<'a>) -> (r: Result<
        (Option<dechunker::Event<'a>>, Option<Event<'a>>),
        Error,
    >)
        requires
            accepts(old(self)@, input@),
        ensures
            match step(old(self)@, input@) {
                Ok(s) => r matches Ok((leftover, event)) && leftover is None && view_of(event)
                    == s.event && final(self)@ == s.state,
                Err(e) => r == Err::<(Option<dechunker::Event<'a>>, Option<Event<'a>>), Error>(e)
                    && final(self)@ == old(self)@,
            },
    {
        match &mut self.state {
            State::BeforeChunk => match input {
                dechunker::Event::BeginChunk(header) => {
                    if same_type(&header.type_, &IHDR) {
                        if header.len as usize != IMAGE_HEADER_SIZE {
                            return Err(Error::InvalidImageHeaderLength);
                        }
                        self.state = State::IHDR(new_image_header_buf());
                    } else if same_type(&header.type_, &IDAT) {
                        self.state = State::IDAT;
                    } else if same_type(&header.type_, &IEND) {
                        if header.len != 0 {
                            return Err(Error::InvalidEndChunkSize);
                        }
                        self.state = State::IEND;
                    } else if same_type(&header.type_, &PLTE) {
                        if header.len % 3 != 0 || header.len as usize > PALETTE_SIZE {
                            return Err(Error::InvalidPaletteChunkSize);
                        }
                        self.state = State::PLTE;
                    } else {
                        self.state = State::IgnoredChunk;
                    }
                    Ok((None, None))
                },
                _ => unreached(),
            },
            State::IHDR(buf) => match input {
                dechunker::Event::Data(data) => {
                    extend_from_slice(buf, data).unwrap();
                    Ok((None, None))
                },
                dechunker::Event::EndChunk => {
                    let header = read_image_header(as_slice(buf));
                    self.state = State::BeforeChunk;
                    Ok((None, Some(Event::ImageHeader(header))))
                },
                dechunker::Event::BeginChunk(_) => unreached(),
            },
            State::PLTE => match input {
                dechunker::Event::Data(data) => {
                    self.palette.extend(data);
                    Ok((None, None))
                },
                dechunker::Event::EndChunk => {
                    self.state = State::BeforeChunk;
                    Ok((None, None))
                },
                dechunker::Event::BeginChunk(_) => unreached(),
            },
            State::IDAT => match input {
                dechunker::Event::Data(data) => Ok((None, Some(Event::ImageData(data)))),
                dechunker::Event::EndChunk => {
                    self.state = State::BeforeChunk;
                    Ok((None, None))
                },
                dechunker::Event::BeginChunk(_) => unreached(),
            },
            State::IgnoredChunk => match input {
                dechunker::Event::Data(_) => Ok((None, None)),
                dechunker::Event::EndChunk => {
                    self.state = State::BeforeChunk;
                    Ok((None, None))
                },
                dechunker::Event::BeginChunk(_) => unreached(),
            },
            State::IEND => match input {
                dechunker::Event::EndChunk => {
                    self.state = State::BeforeChunk;
                    Ok((None, Some(Event::End)))
                },
                _ => unreached(),
            },
        }
    }
}

} // verus!
