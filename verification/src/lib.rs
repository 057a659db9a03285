//! Incremental PNG decoding without heap allocation.
//!
//! A PNG stream is decoded as it arrives, in fragments of any size, by three
//! layers that are driven by the caller:
//!
//! 1. [`dechunker::Dechunker`] splits raw bytes into chunk events,
//! 2. [`stream_decoder::StreamDecoder`] interprets chunk events and emits the
//!    image header, the raw image data and the end marker,
//! 3. [`inflater::Inflater`] decompresses the image data.
//!
//! Each layer emits at most one event per call. A caller drains a layer (feeds
//! back what it reports as left over) before giving it new input.
//!
//! The contracts of the first two layers are exact: [`dechunker::step`] and
//! [`stream_decoder::step`] say what a call does. [`pipeline`] says what a
//! caller's loop over them does, and proves that it does not matter how the
//! stream is cut into pieces. The third layer rests on the miniz_oxide crate
//! for decompression, and the buffers of the first two on the heapless crate;
//! what is taken on trust of them is stated in [`inflater`] and [`scratch`].

use vstd::prelude::*;

use crate::scratch::PALETTE_SIZE;

pub mod scratch;
pub mod dechunker;
pub mod stream_decoder;
pub mod inflater;
pub mod pipeline;

verus! {

/// Why a decode was abandoned. Every error is final for the decoder that
/// returned it.
#[derive(Debug, PartialEq, Eq, Clone, Copy)]
pub enum Error {
    /// The stream does not start with the PNG signature.
    InvalidPngSignature,
    /// The stream ended inside a chunk, or inside the signature.
    UnfinishedChunk,
    /// An image header chunk whose declared length is not 13.
    InvalidImageHeaderLength,
    /// Image data before any image header (not raised by this version).
    NoImageHeader,
    /// The compressed image data is not a valid zlib stream.
    InvalidDeflateStream,
    /// A chunk's check value does not match its contents (not raised by this
    /// version).
    ChecksumMismatch,
    /// An end chunk whose declared length is not 0.
    InvalidEndChunkSize,
    /// A palette chunk whose declared length is not a multiple of 3, or is
    /// above 768.
    InvalidPaletteChunkSize,
}

/// The colour at `index` of a palette stored as consecutive RGB bytes: the
/// three bytes of that entry where all of them are present, black otherwise.
pub open spec fn color_of(bytes: Seq<u8>, index: int) -> Seq<u8> {
    if 0 <= index && (index + 1) * 3 <= bytes.len() {
        bytes.subrange(index * 3, index * 3 + 3)
    } else {
        seq![0u8, 0u8, 0u8]
    }
}

/// The palette of an image, as far as it has been received.
pub struct Palette {
    data: heapless::Vec<u8, PALETTE_SIZE>,
}

impl View for Palette {
    type V = Seq<u8>;

    /// The palette bytes received so far, three per entry.
    closed spec fn view(&self) -> Seq<u8> {
        scratch::palette_bytes(self.data)
    }
}

impl Palette {
    /// A palette without entries.
    pub(crate) fn new() -> (p: Self)
        ensures
            p@ == Seq::<u8>::empty(),
    {
        Palette { data: scratch::new_palette_buf() }
    }

    /// Appends `bytes`, which must fit.
    pub(crate) fn extend(&mut self, bytes: &[u8])
        requires
            old(self)@.len() + bytes@.len() <= PALETTE_SIZE,
        ensures
            final(self)@ == old(self)@ + bytes@,
    {
        scratch::extend_from_slice(&mut self.data, bytes).unwrap();
    }

    /// The number of bytes received so far.
    pub(crate) fn len(&self) -> (n: usize)
        ensures
            n == self@.len(),
    {
        scratch::as_slice(&self.data).len()
    }

    /// The colour of entry `index` as `[red, green, blue]`. An entry that has
    /// not been received in full reads as black.
    pub fn color_at(&self, index: u8) -> (c: [u8; 3])
        ensures
            c@ == color_of(self@, index as int),
    {
        let bytes = scratch::as_slice(&self.data);
        let start: usize = index as usize * 3;
        if start + 3 > bytes.len() {
            let c: [u8; 3] = [0, 0, 0];
            assert(c@ =~= seq![0u8, 0u8, 0u8]);
            c
        } else {
            let c: [u8; 3] = [bytes[start], bytes[start + 1], bytes[start + 2]];
            assert(c@ =~= bytes@.subrange(index * 3, index * 3 + 3));
            c
        }
    }
}

} // verus!
