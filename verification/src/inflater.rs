//! The inflator: from compressed image data to decompressed image data.
//!
//! [`Inflater::update`] takes the events of the stream interpreter. The image
//! header and the end marker pass through. Image data goes through one step of
//! miniz_oxide's streaming zlib decompressor, which writes into a window of
//! `BUFFER_SIZE` bytes that the inflator owns and reuses. What the step wrote
//! is emitted, and what it left to do is handed back to the caller as the
//! leftover: [`leftover_of`] says which.
//!
//! The decompressor itself is not verified here. What a step gives depends on
//! nothing but the decompressor's state, the input and the room for output:
//! [`inflated`] is the name of it, and [`inflate`] states what this module
//! relies on. What the inflator makes of a step's outcome is [`concluded`].

use vstd::prelude::*;

use miniz_oxide::inflate::stream::InflateState;
use miniz_oxide::{DataFormat, MZError, MZFlush, MZStatus};

use vstd::arithmetic::power2::{lemma2_to64, lemma_pow2_strictly_increases, pow2};
use vstd::bits::lemma_u32_shl_is_mul;

use crate::stream_decoder as sd;
use crate::stream_decoder::ImageHeader;
use crate::Error;

verus! {

/// Makes miniz_oxide's decompressor state known to Verus as a type whose
/// inside it does not see.
#[verifier::external_type_specification]
#[verifier::external_body]
pub struct ExInflateState(InflateState);

/// How a decompression step ended: the status codes of miniz_oxide, those of
/// success first.
#[derive(Debug, PartialEq, Eq, Clone, Copy)]
pub enum Status {
    /// The step went well; more may follow.
    Continue,
    /// The step went well and reached the end of the compressed stream.
    StreamEnd,
    /// A preset dictionary is wanted. Decompression does not give this code.
    NeedDict,
    /// Not used by miniz_oxide.
    ErrNo,
    /// The decompressor was driven in a way it does not allow.
    Stream,
    /// The compressed data is corrupt.
    Data,
    /// Not used by miniz_oxide.
    Mem,
    /// The step made no progress for want of input or of room for output.
    Buf,
    /// Not used by miniz_oxide.
    Version,
    /// A bad parameter. Only compression gives this code.
    Param,
}

impl Status {
    /// The error codes that streaming decompression never gives. They would
    /// point to a fault in this library, not in its input.
    pub open spec fn is_fatal(self) -> bool {
        self is ErrNo || self is Mem || self is Version || self is Param
    }
}

/// What a decompression step did.
#[derive(Debug, PartialEq, Eq, Clone, Copy)]
pub struct Progress {
    /// How many bytes of the input the step read.
    pub consumed: usize,
    /// How many bytes the step wrote to the front of the window.
    pub written: usize,
    /// How the step ended.
    pub status: Status,
}

/// `InflateState::new` for the zlib format. Nothing is stated of the state: it
/// is only ever handed to [`inflate`].
#[verifier::external_body]
fn new_zlib_state() -> InflateState {
    InflateState::new(DataFormat::Zlib)
}

/// What one decompression step gives.
pub struct Inflated {
    /// How much the step read and wrote, and how it ended.
    pub progress: Progress,
    /// The bytes that the step wrote to the front of the output.
    pub bytes: Seq<u8>,
    /// The decompressor's state after the step.
    pub state: InflateState,
}

/// What `miniz_oxide::inflate::stream::inflate` gives, without flushing, for a
/// decompressor in `state`, on `input`, with room for `room` bytes of output.
pub uninterp spec fn inflated(state: InflateState, input: Seq<u8>, room: nat) -> Inflated;

/// `miniz_oxide::inflate::stream::inflate` without flushing. The step's
/// counts and status, the bytes it writes to the front of `output` and the
/// state it leaves depend on nothing but the state before, the input and the
/// length of `output`: they are what [`inflated`] names. The step reads no
/// more than `input` holds and writes no more than `output` holds, and of the
/// error codes it gives only `Stream`, `Data` and `Buf`. Nothing is stated of
/// which bytes it writes.
#[verifier::external_body]
fn inflate<const N: usize>(state: &mut InflateState, input: &[u8], output: &mut [u8; N]) -> (p:
    Progress)
    ensures
        p == inflated(*old(state), input@, N as nat).progress,
        final(output)@.subrange(0, p.written as int) == inflated(
            *old(state),
            input@,
            N as nat,
        ).bytes,
        *final(state) == inflated(*old(state), input@, N as nat).state,
        p.consumed <= input@.len(),
        p.written <= N,
        !p.status.is_fatal(),
{
    let r = miniz_oxide::inflate::stream::inflate(state, input, output, MZFlush::None);
    let status = match r.status {
        Ok(MZStatus::Ok) => Status::Continue,
        Ok(MZStatus::StreamEnd) => Status::StreamEnd,
        Ok(MZStatus::NeedDict) => Status::NeedDict,
        Err(MZError::ErrNo) => Status::ErrNo,
        Err(MZError::Stream) => Status::Stream,
        Err(MZError::Data) => Status::Data,
        Err(MZError::Mem) => Status::Mem,
        Err(MZError::Buf) => Status::Buf,
        Err(MZError::Version) => Status::Version,
        Err(MZError::Param) => Status::Param,
    };
    Progress { consumed: r.bytes_consumed, written: r.bytes_written, status }
}

/// What the inflator emits.
#[derive(Debug, PartialEq, Eq)]
pub enum Event<'a> {
    /// The image header, as the stream interpreter gave it.
    ImageHeader(ImageHeader),
    /// Decompressed image data. It may be empty: the step then produced
    /// nothing, which is neither an error nor the end.
    ImageData(&'a [u8]),
    /// The end of the image, as the stream interpreter gave it.
    End,
}

/// An [`Event`] with its borrowed bytes as a sequence.
pub enum EventView {
    ImageHeader(ImageHeader),
    ImageData(Seq<u8>),
    End,
}

impl<'a> View for Event<'a> {
    type V = EventView;

    open spec fn view(&self) -> EventView {
        match self {
            Event::ImageHeader(h) => EventView::ImageHeader(*h),
            Event::ImageData(d) => EventView::ImageData(d@),
            Event::End => EventView::End,
        }
    }
}

/// The view of an event that may be absent.
pub open spec fn view_of(event: Option<Event>) -> Option<EventView> {
    match event {
        Some(e) => Some(e@),
        None => None,
    }
}

/// The error that a step's status stands for, if it stands for one: corrupt
/// data and a misdriven stream do, success and want of input do not.
pub open spec fn verdict(status: Status) -> Result<(), Error> {
    if status is Stream || status is Data {
        Err(Error::InvalidDeflateStream)
    } else {
        Ok(())
    }
}

/// What is left to do after a step that read `consumed` bytes of `input` and
/// wrote `written` bytes into a window of `window` bytes: the unread rest of
/// the input where there is one; else an empty input where the window was
/// filled to the brim, because more output may be waiting; else nothing.
pub open spec fn leftover_of(input: Seq<u8>, consumed: nat, written: nat, window: nat) -> Option<
    sd::EventView,
> {
    if consumed < input.len() {
        Some(sd::EventView::ImageData(input.subrange(consumed as int, input.len() as int)))
    } else if written == window {
        Some(sd::EventView::ImageData(Seq::empty()))
    } else {
        None
    }
}

/// The error that `status` stands for, if any. See [`verdict`].
pub fn check_status(status: Status) -> (r: Result<(), Error>)
    requires
        !status.is_fatal(),
    ensures
        r == verdict(status),
{
    match status {
        Status::Stream => Err(Error::InvalidDeflateStream),
        Status::Data => Err(Error::InvalidDeflateStream),
        _ => Ok(()),
    }
}

/// The leftover after a step on `input`. See [`leftover_of`].
pub fn leftover<'a>(input: &'a [u8], consumed: usize, written: usize, window: usize) -> (r: Option<
    sd::Event<'a>,
>)
    ensures
        sd::view_of(r) == leftover_of(input@, consumed as nat, written as nat, window as nat),
{
    if consumed < input.len() {
        Some(sd::Event::ImageData(&input[consumed..input.len()]))
    } else if written == window {
        let none = &input[input.len()..input.len()];
        assert(none@ =~= Seq::<u8>::empty());
        Some(sd::Event::ImageData(none))
    } else {
        None
    }
}

/// The size in bytes of the window that a zlib stream was compressed with,
/// from the stream's first byte: two to the power of eight more than the
/// byte's upper half.
pub fn window_size(first: u8) -> (size: u32)
    ensures
        size == pow2((first / 16 + 8) as nat),
{
    let log: u32 = (first / 16) as u32 + 8;
    proof {
        lemma_pow2_strictly_increases(log as nat, 32);
        lemma2_to64();
        lemma_u32_shl_is_mul(1, log);
    }
    1u32 << log
}

/// Whether `r` hands the image header or the end marker `input` on as it is,
/// with nothing left over.
pub open spec fn passes_through<'a, 'b>(
    input: sd::EventView,
    r: Result<(Option<sd::Event<'a>>, Option<Event<'b>>), Error>,
) -> bool {
    r matches Ok((rest, event)) && rest is None && match input {
        sd::EventView::ImageHeader(header) => view_of(event) == Some(EventView::ImageHeader(header)),
        sd::EventView::End => view_of(event) == Some(EventView::End),
        sd::EventView::ImageData(_) => false,
    }
}

/// Whether `r` is what the inflator makes of a step on `bytes` that reported
/// `p` and wrote `out`, with a window of `room` bytes: the error that the
/// step's status stands for, or else `out` as image data, and as leftover what
/// [`leftover_of`] says for the step's counts.
pub open spec fn concluded<'a, 'b>(
    bytes: Seq<u8>,
    p: Progress,
    out: Seq<u8>,
    room: nat,
    r: Result<(Option<sd::Event<'a>>, Option<Event<'b>>), Error>,
) -> bool {
    match verdict(p.status) {
        Err(e) => r matches Err(x) && x == e,
        Ok(_) => r matches Ok((rest, Some(Event::ImageData(o)))) && o@ == out && sd::view_of(rest)
            == leftover_of(bytes, p.consumed as nat, p.written as nat, room),
    }
}

/// What the inflator makes of a step on `bytes` that reported `p` and wrote
/// to the front of `window`. See [`concluded`].
pub fn conclude<'a, 'w>(bytes: &'a [u8], window: &'w [u8], p: Progress) -> (r: Result<
    (Option<sd::Event<'a>>, Option<Event<'w>>),
    Error,
>)
    requires
        !p.status.is_fatal(),
        p.written <= window@.len(),
    ensures
        concluded(bytes@, p, window@.subrange(0, p.written as int), window@.len(), r),
{
    match check_status(p.status) {
        Err(e) => Err(e),
        Ok(()) => {
            let rest = leftover(bytes, p.consumed, p.written, window.len());
            Ok((rest, Some(Event::ImageData(&window[0..p.written]))))
        },
    }
}

/// What can be said of an inflator: the state of its decompressor and the
/// contents of its output window.
pub struct InflaterView {
    pub engine: InflateState,
    pub window: Seq<u8>,
}

/// The inflator, with an output window of `BUFFER_SIZE` bytes.
pub struct Inflater<const BUFFER_SIZE: usize> {
    decompressor: InflateState,
    output_buf: [u8; BUFFER_SIZE],
}

impl<const BUFFER_SIZE: usize> View for Inflater<BUFFER_SIZE> {
    type V = InflaterView;

    closed spec fn view(&self) -> InflaterView {
        InflaterView { engine: self.decompressor, window: self.output_buf@ }
    }
}

impl<const BUFFER_SIZE: usize> Inflater<BUFFER_SIZE> {
    /// An inflator at the start of a zlib stream, its window filled with zeros.
    pub fn new() -> (inflater: Self)
        ensures
            inflater@.window == Seq::new(BUFFER_SIZE as nat, |i: int| 0u8),
    {
        let inflater = Inflater { decompressor: new_zlib_state(), output_buf: [0; BUFFER_SIZE] };
        assert(inflater@.window =~= Seq::new(BUFFER_SIZE as nat, |i: int| 0u8));
        inflater
    }

    /// Takes the next event of the stream interpreter, or the leftover of the
    /// call before.
    ///
    /// The image header and the end marker are handed on, with nothing left
    /// over, and the inflator stays as it was.
    ///
    /// Image data goes through one decompression step, on the bytes as they
    /// are and the whole window: the step is [`inflated`] of the
    /// decompressor's state, the bytes and `BUFFER_SIZE`. It leaves the
    /// decompressor in the state it gives and its bytes at the front of the
    /// window. The result is what [`concluded`] says of the step: the call
    /// fails with `InvalidDeflateStream` where the step's status stands for
    /// that, and else emits the step's bytes and leaves over what
    /// [`leftover_of`] says for the step's counts. The counts are within the
    /// input and the window. The emitted data is valid until the next call.
    pub fn update<'this, 'a>(&'this mut self, input: sd::Event<'a>) -> (r: Result<
        (Option<sd::Event<'a>>, Option<Event<'this>>),
        Error,
    >)
        ensures
            final(self)@.window.len() == BUFFER_SIZE,
            input@ is ImageHeader || input@ is End ==> passes_through(input@, r) && final(self)@
                == old(self)@,
            input@ matches sd::EventView::ImageData(bytes) ==> ({
                let step = inflated(old(self)@.engine, bytes, BUFFER_SIZE as nat);
                &&& step.progress.consumed <= bytes.len()
                &&& step.progress.written <= BUFFER_SIZE
                &&& !step.progress.status.is_fatal()
                &&& final(self)@.engine == step.state
                &&& final(self)@.window.subrange(0, step.progress.written as int) == step.bytes
                &&& concluded(bytes, step.progress, step.bytes, BUFFER_SIZE as nat, r)
            }),
    {
        match input {
            sd::Event::ImageHeader(header) => Ok((None, Some(Event::ImageHeader(header)))),
            sd::Event::ImageData(bytes) => {
                let p = inflate(&mut self.decompressor, bytes, &mut self.output_buf);
                conclude(bytes, &self.output_buf, p)
            },
            sd::Event::End => Ok((None, Some(Event::End))),
        }
    }
}

} // verus!
