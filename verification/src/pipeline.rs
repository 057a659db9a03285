//! What a caller's loop does with a whole input, and why the way the input is
//! cut into pieces does not matter.
//!
//! A caller feeds a piece of the stream to the chunk splitter again and again
//! until the piece is used up. [`run`] is that loop for the chunk splitter
//! alone; [`decode`] is the loop that also hands every chunk event to the
//! stream interpreter. Both collect what comes out byte by byte, so that two
//! `Data` events of three and five bytes leave the same trace as one of eight.
//!
//! The laws at the end say that a stream cut into any pieces leaves the trace
//! and the states that it leaves in one piece, and that the stream interpreter
//! can take what the chunk splitter emits.

use vstd::prelude::*;

use crate::dechunker;
use crate::dechunker::{ChunkHeader, FrameState};
use crate::stream_decoder as sd;
use crate::stream_decoder::{DecoderState, ImageHeader};
use crate::Error;

use self::lemmas::{
    lemma_decode_split, lemma_round_stays_in_step, lemma_run_split, lemma_run_unfolds,
    lemma_step_keeps_wf,
};

mod lemmas;

verus! {

/// What the chunk splitter emits, with chunk data spelt byte by byte.
pub enum Token {
    Begin(ChunkHeader),
    Byte(u8),
    End,
}

/// The tokens of an event of the chunk splitter that may be absent.
pub open spec fn tokens_of(event: Option<dechunker::EventView>) -> Seq<Token> {
    match event {
        None => Seq::empty(),
        Some(dechunker::EventView::BeginChunk(header)) => seq![Token::Begin(header)],
        Some(dechunker::EventView::Data(bytes)) => Seq::new(
            bytes.len(),
            |i: int| Token::Byte(bytes[i]),
        ),
        Some(dechunker::EventView::EndChunk) => seq![Token::End],
    }
}

/// Where the chunk splitter stands after some input, and what it has emitted.
pub struct Trace {
    pub state: FrameState,
    pub tokens: Seq<Token>,
}

/// One for a state in which a call may take no byte and still move on, as it
/// does where a chunk has no data; zero for the others, in which every call on
/// some input takes a byte.
pub open spec fn idles(s: FrameState) -> nat {
    if s is InChunk {
        1
    } else {
        0
    }
}

/// The chunk splitter's loop: from state `s`, [`dechunker::step`] is taken on
/// the unconsumed rest of `input` until nothing is left of it. The first error
/// ends the loop.
pub open spec fn run(s: FrameState, input: Seq<u8>) -> Result<Trace, Error>
    decreases input.len(), idles(s),
    when s.wf()
{
    if input.len() == 0 {
        Ok(Trace { state: s, tokens: Seq::empty() })
    } else {
        match dechunker::step(s, input) {
            Err(e) => Err(e),
            Ok(step) => match run(
                step.state,
                input.subrange(step.consumed as int, input.len() as int),
            ) {
                Err(e) => Err(e),
                Ok(rest) => Ok(
                    Trace { state: rest.state, tokens: tokens_of(step.event) + rest.tokens },
                ),
            },
        }
    }
}

/// The loop continued on more input: what [`run`] gives on `input` from where
/// `before` ended, with the tokens of both.
pub open spec fn run_on(before: Result<Trace, Error>, input: Seq<u8>) -> Result<Trace, Error> {
    match before {
        Err(e) => Err(e),
        Ok(first) => match run(first.state, input) {
            Err(e) => Err(e),
            Ok(second) => Ok(Trace { state: second.state, tokens: first.tokens + second.tokens }),
        },
    }
}

/// The loop over a stream that arrives in `pieces`, one after the other.
pub open spec fn run_pieces(s: FrameState, pieces: Seq<Seq<u8>>) -> Result<Trace, Error>
    decreases pieces.len(),
{
    if pieces.len() == 0 {
        Ok(Trace { state: s, tokens: Seq::empty() })
    } else {
        run_on(run_pieces(s, pieces.drop_last()), pieces.last())
    }
}

/// What the stream interpreter emits, with image data spelt byte by byte.
pub enum Item {
    Header(ImageHeader),
    Byte(u8),
    End,
}

/// The items of an event of the stream interpreter that may be absent.
pub open spec fn items_of(event: Option<sd::EventView>) -> Seq<Item> {
    match event {
        None => Seq::empty(),
        Some(sd::EventView::ImageHeader(header)) => seq![Item::Header(header)],
        Some(sd::EventView::ImageData(bytes)) => Seq::new(bytes.len(), |i: int| Item::Byte(bytes[i])),
        Some(sd::EventView::End) => seq![Item::End],
    }
}

/// Why the two layers stopped before the end of the input.
pub enum Halt {
    /// A layer returned this error.
    Failed(Error),
    /// The chunk splitter emitted an event that the stream interpreter does
    /// not accept in its state, see [`sd::accepts`]. Of the events of a chunk
    /// splitter this can only be palette data beyond 768 bytes, in a stream
    /// with more than one palette chunk.
    Refused,
}

/// Where the two layers stand after some input, and what the stream
/// interpreter has emitted.
pub struct Decoding {
    pub frame: FrameState,
    pub decoder: DecoderState,
    pub items: Seq<Item>,
}

/// The stream interpreter's part in one round of the loop: `event`, if there
/// is one, is checked against the state and handed to [`sd::step`].
pub open spec fn hand_on(d: DecoderState, event: Option<dechunker::EventView>) -> Result<
    sd::Step,
    Halt,
> {
    match event {
        None => Ok(sd::Step { state: d, event: None }),
        Some(e) => if !sd::accepts(d, e) {
            Err(Halt::Refused)
        } else {
            match sd::step(d, e) {
                Err(e) => Err(Halt::Failed(e)),
                Ok(step) => Ok(step),
            }
        },
    }
}

/// The loop over both layers: from the states `f` and `d`, the chunk splitter
/// takes a step on the unconsumed rest of `input` and the stream interpreter
/// takes what that step emitted, until nothing is left of the input. The first
/// error ends the loop, and so does an event that the interpreter refuses.
pub open spec fn decode(f: FrameState, d: DecoderState, input: Seq<u8>) -> Result<Decoding, Halt>
    decreases input.len(), idles(f),
    when f.wf()
{
    if input.len() == 0 {
        Ok(Decoding { frame: f, decoder: d, items: Seq::empty() })
    } else {
        match dechunker::step(f, input) {
            Err(e) => Err(Halt::Failed(e)),
            Ok(split) => match hand_on(d, split.event) {
                Err(h) => Err(h),
                Ok(step) => match decode(
                    split.state,
                    step.state,
                    input.subrange(split.consumed as int, input.len() as int),
                ) {
                    Err(h) => Err(h),
                    Ok(rest) => Ok(
                        Decoding {
                            frame: rest.frame,
                            decoder: rest.decoder,
                            items: items_of(step.event) + rest.items,
                        },
                    ),
                },
            },
        }
    }
}

/// The loop continued on more input: what [`decode`] gives on `input` from
/// where `before` ended, with the items of both.
pub open spec fn decode_on(before: Result<Decoding, Halt>, input: Seq<u8>) -> Result<
    Decoding,
    Halt,
> {
    match before {
        Err(h) => Err(h),
        Ok(first) => match decode(first.frame, first.decoder, input) {
            Err(h) => Err(h),
            Ok(second) => Ok(
                Decoding {
                    frame: second.frame,
                    decoder: second.decoder,
                    items: first.items + second.items,
                },
            ),
        },
    }
}

/// The loop over a stream that arrives in `pieces`, one after the other.
pub open spec fn decode_pieces(f: FrameState, d: DecoderState, pieces: Seq<Seq<u8>>) -> Result<
    Decoding,
    Halt,
>
    decreases pieces.len(),
{
    if pieces.len() == 0 {
        Ok(Decoding { frame: f, decoder: d, items: Seq::empty() })
    } else {
        decode_on(decode_pieces(f, d, pieces.drop_last()), pieces.last())
    }
}

/// Whether the two layers stand at the same place in the stream: the stream
/// interpreter is between two chunks where the chunk splitter is, and in a
/// chunk that can still end as its kind demands where the chunk splitter is in
/// one.
pub open spec fn in_step(f: FrameState, d: DecoderState) -> bool {
    match f {
        FrameState::Signature { .. } => d.phase is BeforeChunk,
        FrameState::ChunkHeader { .. } => d.phase is BeforeChunk,
        FrameState::InChunk { remaining } => match d.phase {
            sd::Phase::BeforeChunk => false,
            sd::Phase::ImageHeader { got } => got.len() + remaining == 13,
            sd::Phase::End => remaining == 0,
            _ => true,
        },
        FrameState::CheckValue { .. } => match d.phase {
            sd::Phase::BeforeChunk => false,
            sd::Phase::ImageHeader { got } => got.len() == 13,
            _ => true,
        },
    }
}

/// Whether `event` is palette data that would take the palette of `d` beyond
/// its 768 bytes.
pub open spec fn overflows(d: DecoderState, event: dechunker::EventView) -> bool {
    d.phase is Palette && match event {
        dechunker::EventView::Data(bytes) => d.palette.len() + bytes.len() > 768,
        _ => false,
    }
}

/// **Fragmentation does not matter to the chunk splitter.** A stream that
/// arrives in pieces, however it is cut, leaves the splitter in the state and
/// with the trace that the whole stream leaves in one piece, and fails where
/// the whole stream fails.
pub proof fn law_pieces_run_as_whole(s: FrameState, pieces: Seq<Seq<u8>>)
    requires
        s.wf(),
    ensures
        run_pieces(s, pieces) == run(s, pieces.flatten()),
    decreases pieces.len(),
{
    if pieces.len() == 0 {
    } else {
        let front = pieces.drop_last();
        law_pieces_run_as_whole(s, front);
        front.lemma_flatten_push(pieces.last());
        assert(front.push(pieces.last()) =~= pieces);
        lemma_run_split(s, front.flatten(), pieces.last());
    }
}

/// **Fragmentation does not matter to the first two layers.** A stream that
/// arrives in pieces, however it is cut, leaves the chunk splitter and the
/// stream interpreter in the states, and with the image header, image data
/// bytes and end marker, that the whole stream leaves in one piece. It fails,
/// or is refused, where the whole stream is.
pub proof fn law_pieces_decode_as_whole(f: FrameState, d: DecoderState, pieces: Seq<Seq<u8>>)
    requires
        f.wf(),
    ensures
        decode_pieces(f, d, pieces) == decode(f, d, pieces.flatten()),
    decreases pieces.len(),
{
    if pieces.len() == 0 {
    } else {
        let front = pieces.drop_last();
        law_pieces_decode_as_whole(f, d, front);
        front.lemma_flatten_push(pieces.last());
        assert(front.push(pieces.last()) =~= pieces);
        lemma_decode_split(f, d, front.flatten(), pieces.last());
    }
}

/// **A chunk without data is a begin and an end.** Twelve bytes that spell a
/// chunk header with length zero and a check value, however they are cut into
/// pieces, make the chunk splitter emit `BeginChunk` and `EndChunk` with
/// nothing in between, and leave it between two chunks.
pub proof fn law_empty_chunk(pieces: Seq<Seq<u8>>)
    requires
        pieces.flatten().len() == 12,
        dechunker::header_of(pieces.flatten().subrange(0, 8)).len == 0,
    ensures
        run_pieces(FrameState::ChunkHeader { got: Seq::empty() }, pieces) == Ok::<Trace, Error>(
            Trace {
                state: FrameState::ChunkHeader { got: Seq::empty() },
                tokens: seq![
                    Token::Begin(dechunker::header_of(pieces.flatten().subrange(0, 8))),
                    Token::End,
                ],
            },
        ),
{
    let x = pieces.flatten();
    let header = dechunker::header_of(x.subrange(0, 8));
    let between = FrameState::ChunkHeader { got: Seq::empty() };
    let no_data = FrameState::InChunk { remaining: 0 };
    let check = FrameState::CheckValue { got: Seq::empty() };
    let tail = x.subrange(8, 12);
    law_pieces_run_as_whole(between, pieces);

    assert(Seq::<u8>::empty() + x.subrange(0, 8) =~= x.subrange(0, 8));
    let begin = dechunker::Step {
        state: no_data,
        consumed: 8,
        event: Some(dechunker::EventView::BeginChunk(header)),
    };
    lemma_run_unfolds(between, x, begin);

    assert(tail.subrange(0, 0) =~= Seq::<u8>::empty());
    let idle = dechunker::Step { state: check, consumed: 0, event: None };
    assert(tail.subrange(0, 4) =~= tail);
    lemma_run_unfolds(no_data, tail, idle);

    assert(Seq::<u8>::empty() + tail.subrange(0, 4) =~= tail);
    let end = dechunker::Step {
        state: between,
        consumed: 4,
        event: Some(dechunker::EventView::EndChunk),
    };
    lemma_run_unfolds(check, tail, end);
    assert(tail.subrange(4, 4) =~= Seq::<u8>::empty());
    assert(run(between, tail.subrange(4, 4)) == Ok::<Trace, Error>(
        Trace { state: between, tokens: Seq::empty() },
    ));
    assert(run(check, tail) == Ok::<Trace, Error>(
        Trace { state: between, tokens: seq![Token::End] + Seq::empty() },
    ));
    assert(run(no_data, tail) == Ok::<Trace, Error>(
        Trace { state: between, tokens: Seq::empty() + (seq![Token::End] + Seq::empty()) },
    ));
    assert(seq![Token::Begin(header)] + (Seq::empty() + (seq![Token::End] + Seq::empty()))
        =~= seq![Token::Begin(header), Token::End]);
}

/// **A wrong signature is rejected.** A stream with a byte among its first
/// eight that differs from the signature's, however it is cut into pieces and
/// however short it is, makes the chunk splitter fail with
/// `InvalidPngSignature`.
pub proof fn law_wrong_signature(pieces: Seq<Seq<u8>>, i: int)
    requires
        0 <= i < pieces.flatten().len(),
        i < 8,
        pieces.flatten()[i] != dechunker::PNG_SIGNATURE@[i],
    ensures
        run_pieces(FrameState::Signature { pos: 0 }, pieces) == Err::<Trace, Error>(
            Error::InvalidPngSignature,
        ),
{
    let x = pieces.flatten();
    let n = if x.len() <= 8 {
        x.len() as int
    } else {
        8
    };
    law_pieces_run_as_whole(FrameState::Signature { pos: 0 }, pieces);
    assert(x.subrange(0, n)[i] != dechunker::PNG_SIGNATURE@.subrange(0, n)[i]);
}

/// **The two layers stay in step.** From states in step, as the initial ones
/// are, the loop ends in states in step.
pub proof fn law_layers_stay_in_step(f: FrameState, d: DecoderState, input: Seq<u8>)
    requires
        f.wf(),
        in_step(f, d),
    ensures
        decode(f, d, input) matches Ok(r) ==> in_step(r.frame, r.decoder),
    decreases input.len(), idles(f),
{
    if input.len() > 0 {
        lemma_step_keeps_wf(f, input);
        lemma_round_stays_in_step(f, d, input);
        match dechunker::step(f, input) {
            Err(_) => {},
            Ok(split) => match hand_on(d, split.event) {
                Err(_) => {},
                Ok(step) => {
                    law_layers_stay_in_step(
                        split.state,
                        step.state,
                        input.subrange(split.consumed as int, input.len() as int),
                    );
                },
            },
        }
    }
}

/// **Only a palette that overflows is refused.** Where the two layers are in
/// step, the stream interpreter accepts whatever the chunk splitter emits,
/// but for palette data that would take the palette beyond 768 bytes.
pub proof fn law_only_palette_overflow_is_refused(f: FrameState, d: DecoderState, input: Seq<u8>)
    requires
        f.wf(),
        in_step(f, d),
    ensures
        dechunker::step(f, input) matches Ok(split) ==> (split.event matches Some(event)
            ==> sd::accepts(d, event) || overflows(d, event)),
{
}

} // verus!
