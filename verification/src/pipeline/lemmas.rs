//! The steps of the proofs that fragmentation does not matter.
//!
//! The loop over `a + b` is compared with the loop over `a` continued on `b`
//! by the first step on `a + b`. Either that step ends within `a`, and is then
//! the first step on `a` as well; or it reaches into `b`, and does then what a
//! step on `a` and a step on `b` do together.

use vstd::prelude::*;

use crate::dechunker;
use crate::dechunker::FrameState;
use crate::pipeline::{
    decode, decode_on, hand_on, idles, in_step, items_of, run, run_on, tokens_of, Decoding, Halt,
    Item, Token, Trace,
};
use crate::stream_decoder as sd;
use crate::stream_decoder::DecoderState;
use crate::Error;

verus! {

/// A step keeps the state well formed and takes no more than the input holds.
pub(super) proof fn lemma_step_keeps_wf(s: FrameState, input: Seq<u8>)
    requires
        s.wf(),
    ensures
        dechunker::step(s, input) matches Ok(step) ==> step.state.wf() && step.consumed
            <= input.len(),
{
}

/// Where the input holds all that the current field lacks, what follows those
/// bytes has no part in the step.
proof fn lemma_step_within(s: FrameState, a: Seq<u8>, b: Seq<u8>)
    requires
        s.wf(),
        s.wanted() <= a.len(),
    ensures
        dechunker::step(s, a + b) == dechunker::step(s, a),
{
    let n = s.wanted() as int;
    assert((a + b).subrange(0, n) =~= a.subrange(0, n));
}

/// Two events in a row as one: nothing and an event are that event; data and
/// more data are the data of both.
spec fn joined(
    first: Option<dechunker::EventView>,
    second: Option<dechunker::EventView>,
) -> Option<dechunker::EventView> {
    match (first, second) {
        (Some(dechunker::EventView::Data(x)), Some(dechunker::EventView::Data(y))) => Some(
            dechunker::EventView::Data(x + y),
        ),
        _ => second,
    }
}

/// Whether two events in a row can be taken as one: the first is absent, or
/// both are data.
spec fn joins(
    first: Option<dechunker::EventView>,
    second: Option<dechunker::EventView>,
) -> bool {
    first is None || (first matches Some(dechunker::EventView::Data(_)) && second matches Some(
        dechunker::EventView::Data(_),
    ))
}

/// Joining events joins their tokens.
proof fn lemma_joined_tokens(
    first: Option<dechunker::EventView>,
    second: Option<dechunker::EventView>,
)
    requires
        joins(first, second),
    ensures
        tokens_of(joined(first, second)) == tokens_of(first) + tokens_of(second),
{
    assert(tokens_of(joined(first, second)) =~= tokens_of(first) + tokens_of(second));
}

/// Whether a step on `a` and a step on `b` after it do together what one step
/// on `a + b` does: they fail alike or leave the same state, take as many
/// bytes and emit what joins to the same event.
spec fn steps_join(s: FrameState, a: Seq<u8>, b: Seq<u8>) -> bool {
    match dechunker::step(s, a) {
        Err(e) => dechunker::step(s, a + b) == Err::<dechunker::Step, Error>(e),
        Ok(first) => first.consumed == a.len() && first.state.wf() && match dechunker::step(
            first.state,
            b,
        ) {
            Err(e) => dechunker::step(s, a + b) == Err::<dechunker::Step, Error>(e),
            Ok(second) => dechunker::step(s, a + b) matches Ok(both) && both.state == second.state
                && both.consumed == a.len() + second.consumed && joins(first.event, second.event)
                && both.event == joined(first.event, second.event),
        },
    }
}

proof fn lemma_signature_joins(pos: nat, a: Seq<u8>, b: Seq<u8>)
    requires
        0 < a.len(),
        pos + a.len() < 8,
        0 < b.len(),
    ensures
        steps_join(FrameState::Signature { pos }, a, b),
{
    let s = FrameState::Signature { pos };
    let n: nat = if a.len() + b.len() <= 8 - pos {
        a.len() + b.len()
    } else {
        (8 - pos) as nat
    };
    let m = (n - a.len()) as nat;
    let sig = dechunker::PNG_SIGNATURE@;
    let taken = (a + b).subrange(0, n as int);
    let want = sig.subrange(pos as int, (pos + n) as int);
    let want_a = sig.subrange(pos as int, (pos + a.len()) as int);
    let want_b = sig.subrange((pos + a.len()) as int, (pos + n) as int);
    let taken_b = b.subrange(0, m as int);
    assert(a.subrange(0, a.len() as int) =~= a);
    assert(taken =~= a + taken_b);
    assert(want =~= want_a + want_b);
    assert(a =~= taken.subrange(0, a.len() as int));
    assert(want_a =~= want.subrange(0, a.len() as int));
    assert(taken_b =~= taken.subrange(a.len() as int, n as int));
    assert(want_b =~= want.subrange(a.len() as int, n as int));
    assert((taken == want) <==> (a == want_a && taken_b == want_b));
    if a == want_a {
        let next = FrameState::Signature { pos: pos + a.len() };
        assert(dechunker::step(s, a) == Ok::<dechunker::Step, Error>(
            dechunker::Step { state: next, consumed: a.len(), event: None },
        ));
    }
}

proof fn lemma_header_joins(got: Seq<u8>, a: Seq<u8>, b: Seq<u8>)
    requires
        0 < a.len(),
        got.len() + a.len() < 8,
        0 < b.len(),
    ensures
        steps_join(FrameState::ChunkHeader { got }, a, b),
{
    let n: nat = if a.len() + b.len() <= 8 - got.len() {
        a.len() + b.len()
    } else {
        (8 - got.len()) as nat
    };
    let m = (n - a.len()) as nat;
    assert(a.subrange(0, a.len() as int) =~= a);
    assert((a + b).subrange(0, n as int) =~= a + b.subrange(0, m as int));
    assert(got + (a + b).subrange(0, n as int) =~= (got + a) + b.subrange(0, m as int));
}

proof fn lemma_data_joins(remaining: nat, a: Seq<u8>, b: Seq<u8>)
    requires
        0 < a.len() < remaining,
        remaining <= u32::MAX,
        0 < b.len(),
    ensures
        steps_join(FrameState::InChunk { remaining }, a, b),
{
    let n: nat = if a.len() + b.len() <= remaining {
        a.len() + b.len()
    } else {
        remaining
    };
    let m = (n - a.len()) as nat;
    let taken = (a + b).subrange(0, n as int);
    assert(a.subrange(0, a.len() as int) =~= a);
    assert(taken =~= a + b.subrange(0, m as int));
}

proof fn lemma_check_value_joins(got: Seq<u8>, a: Seq<u8>, b: Seq<u8>)
    requires
        0 < a.len(),
        got.len() + a.len() < 4,
        0 < b.len(),
    ensures
        steps_join(FrameState::CheckValue { got }, a, b),
{
    let n: nat = if a.len() + b.len() <= 4 - got.len() {
        a.len() + b.len()
    } else {
        (4 - got.len()) as nat
    };
    let m = (n - a.len()) as nat;
    assert(a.subrange(0, a.len() as int) =~= a);
    assert((a + b).subrange(0, n as int) =~= a + b.subrange(0, m as int));
    assert(got + (a + b).subrange(0, n as int) =~= (got + a) + b.subrange(0, m as int));
}

/// Where the input `a` holds less than the current field lacks, a step on `a`
/// and a step on what follows do together what one step on both does.
proof fn lemma_step_across(s: FrameState, a: Seq<u8>, b: Seq<u8>)
    requires
        s.wf(),
        0 < a.len() < s.wanted(),
        0 < b.len(),
    ensures
        steps_join(s, a, b),
{
    match s {
        FrameState::Signature { pos } => lemma_signature_joins(pos, a, b),
        FrameState::ChunkHeader { got } => lemma_header_joins(got, a, b),
        FrameState::InChunk { remaining } => lemma_data_joins(remaining, a, b),
        FrameState::CheckValue { got } => lemma_check_value_joins(got, a, b),
    }
}

/// The loop leaves the state well formed.
proof fn lemma_run_keeps_wf(s: FrameState, input: Seq<u8>)
    requires
        s.wf(),
    ensures
        run(s, input) matches Ok(t) ==> t.state.wf(),
    decreases input.len(), idles(s),
{
    if input.len() > 0 {
        lemma_step_keeps_wf(s, input);
        match dechunker::step(s, input) {
            Err(_) => {},
            Ok(step) => {
                lemma_run_keeps_wf(
                    step.state,
                    input.subrange(step.consumed as int, input.len() as int),
                );
            },
        }
    }
}

/// The loop over an input whose first step is `step`.
pub(super) proof fn lemma_run_unfolds(s: FrameState, input: Seq<u8>, step: dechunker::Step)
    requires
        s.wf(),
        input.len() > 0,
        dechunker::step(s, input) == Ok::<dechunker::Step, Error>(step),
    ensures
        run(s, input) == run_on(
            Ok(Trace { state: step.state, tokens: tokens_of(step.event) }),
            input.subrange(step.consumed as int, input.len() as int),
        ),
{
}

/// Continuing a loop on `b` after `a` is continuing it on `a`, then on `b`.
proof fn lemma_run_on_twice(before: Result<Trace, Error>, a: Seq<u8>, b: Seq<u8>, s: FrameState)
    requires
        before matches Ok(t) && t.state == s,
        s.wf(),
        run(s, a + b) == run_on(run(s, a), b),
    ensures
        run_on(before, a + b) == run_on(run_on(before, a), b),
{
    let t = before->Ok_0;
    match run(s, a) {
        Err(_) => {},
        Ok(t1) => match run(t1.state, b) {
            Err(_) => {},
            Ok(t2) => {
                assert(t.tokens + (t1.tokens + t2.tokens) =~= (t.tokens + t1.tokens) + t2.tokens);
            },
        },
    }
}

/// The split law where the first step ends within `a`, given the law for
/// what follows that step.
proof fn lemma_split_within(s: FrameState, a: Seq<u8>, b: Seq<u8>, step: dechunker::Step)
    requires
        s.wf(),
        0 < a.len(),
        s.wanted() <= a.len(),
        dechunker::step(s, a) == Ok::<dechunker::Step, Error>(step),
        step.state.wf(),
        step.consumed <= a.len(),
        ({
            let rest = a.subrange(step.consumed as int, a.len() as int);
            run(step.state, rest + b) == run_on(run(step.state, rest), b)
        }),
    ensures
        run(s, a + b) == run_on(run(s, a), b),
{
    let n = step.consumed as int;
    let rest = a.subrange(n, a.len() as int);
    let before = Ok::<Trace, Error>(Trace { state: step.state, tokens: tokens_of(step.event) });
    assert((a + b).subrange(n, (a + b).len() as int) =~= rest + b);
    lemma_step_within(s, a, b);
    lemma_run_unfolds(s, a, step);
    lemma_run_unfolds(s, a + b, step);
    lemma_run_on_twice(before, rest, b, step.state);
}

/// The loop over an input that one step uses up.
proof fn lemma_run_one_step(s: FrameState, input: Seq<u8>, step: dechunker::Step)
    requires
        s.wf(),
        input.len() > 0,
        dechunker::step(s, input) == Ok::<dechunker::Step, Error>(step),
        step.consumed == input.len(),
        step.state.wf(),
    ensures
        run(s, input) == Ok::<Trace, Error>(
            Trace { state: step.state, tokens: tokens_of(step.event) },
        ),
{
    lemma_run_unfolds(s, input, step);
    assert(input.subrange(input.len() as int, input.len() as int) =~= Seq::<u8>::empty());
    assert(tokens_of(step.event) + Seq::<Token>::empty() =~= tokens_of(step.event));
}

/// Two traces that begin with `first` and `second`, or with `both`, and go on
/// alike are the same, where `both` holds the tokens of the two.
proof fn lemma_traces_join(
    first: Trace,
    second: Trace,
    both: Trace,
    rest: Seq<u8>,
)
    requires
        both.state == second.state,
        both.tokens == first.tokens + second.tokens,
    ensures
        match run(second.state, rest) {
            Err(e) => run_on(Ok(both), rest) == Err::<Trace, Error>(e),
            Ok(t) => run_on(Ok(both), rest) == Ok::<Trace, Error>(
                Trace { state: t.state, tokens: first.tokens + (second.tokens + t.tokens) },
            ),
        },
{
    match run(second.state, rest) {
        Err(_) => {},
        Ok(t) => {
            assert((first.tokens + second.tokens) + t.tokens =~= first.tokens + (second.tokens
                + t.tokens));
        },
    }
}

/// The split law where the first step on `a + b` reaches into `b`.
proof fn lemma_split_across(s: FrameState, a: Seq<u8>, b: Seq<u8>)
    requires
        s.wf(),
        0 < a.len() < s.wanted(),
        0 < b.len(),
    ensures
        run(s, a + b) == run_on(run(s, a), b),
{
    lemma_step_across(s, a, b);
    match dechunker::step(s, a) {
        Err(_) => {},
        Ok(first) => {
            lemma_run_one_step(s, a, first);
            match dechunker::step(first.state, b) {
                Err(_) => {},
                Ok(second) => {
                    let both = dechunker::step(s, a + b)->Ok_0;
                    let n = second.consumed as int;
                    let rest = b.subrange(n, b.len() as int);
                    lemma_step_keeps_wf(first.state, b);
                    assert((a + b).subrange(a.len() + n, (a + b).len() as int) =~= rest);
                    lemma_joined_tokens(first.event, second.event);
                    lemma_run_unfolds(first.state, b, second);
                    lemma_run_unfolds(s, a + b, both);
                    lemma_traces_join(
                        Trace { state: first.state, tokens: tokens_of(first.event) },
                        Trace { state: second.state, tokens: tokens_of(second.event) },
                        Trace { state: both.state, tokens: tokens_of(both.event) },
                        rest,
                    );
                },
            }
        },
    }
}

/// The core of the laws below: the loop over `a` followed by `b` is the loop
/// over `a`, continued on `b`.
pub(super) proof fn lemma_run_split(s: FrameState, a: Seq<u8>, b: Seq<u8>)
    requires
        s.wf(),
    ensures
        run(s, a + b) == run_on(run(s, a), b),
    decreases a.len() + b.len(), idles(s),
{
    if a.len() == 0 {
        assert(a + b =~= b);
        match run(s, b) {
            Ok(t) => {
                assert(Seq::<Token>::empty() + t.tokens =~= t.tokens);
            },
            Err(_) => {},
        }
    } else if b.len() == 0 {
        assert(a + b =~= a);
        lemma_run_keeps_wf(s, a);
        match run(s, a) {
            Ok(t) => {
                assert(t.tokens + Seq::<Token>::empty() =~= t.tokens);
            },
            Err(_) => {},
        }
    } else if s.wanted() <= a.len() {
        lemma_step_within(s, a, b);
        lemma_step_keeps_wf(s, a);
        match dechunker::step(s, a) {
            Err(_) => {},
            Ok(step) => {
                lemma_run_split(step.state, a.subrange(step.consumed as int, a.len() as int), b);
                lemma_split_within(s, a, b, step);
            },
        }
    } else {
        lemma_split_across(s, a, b);
    }
}

/// One round of the loop keeps the two layers in step.
pub(super) proof fn lemma_round_stays_in_step(f: FrameState, d: DecoderState, input: Seq<u8>)
    requires
        f.wf(),
        in_step(f, d),
    ensures
        dechunker::step(f, input) matches Ok(split) ==> (hand_on(d, split.event) matches Ok(step)
            ==> in_step(split.state, step.state)),
{
}

/// The stream interpreter takes data in two parts as it takes it in one.
proof fn lemma_hand_on_joined(
    d: DecoderState,
    first: Option<dechunker::EventView>,
    second: Option<dechunker::EventView>,
)
    requires
        joins(first, second),
    ensures
        match hand_on(d, first) {
            Err(h) => hand_on(d, joined(first, second)) == Err::<sd::Step, Halt>(h),
            Ok(one) => match hand_on(one.state, second) {
                Err(h) => hand_on(d, joined(first, second)) == Err::<sd::Step, Halt>(h),
                Ok(two) => hand_on(d, joined(first, second)) matches Ok(both) && both.state
                    == two.state && items_of(both.event) == items_of(one.event) + items_of(
                    two.event,
                ),
            },
        },
{
    match (first, second) {
        (Some(dechunker::EventView::Data(x)), Some(dechunker::EventView::Data(y))) => {
            match d.phase {
                sd::Phase::ImageHeader { got } => {
                    assert(got + (x + y) =~= (got + x) + y);
                },
                sd::Phase::Palette => {
                    assert(d.palette + (x + y) =~= (d.palette + x) + y);
                },
                _ => {},
            }
            assert(items_of(Some(sd::EventView::ImageData(x + y))) =~= items_of(
                Some(sd::EventView::ImageData(x)),
            ) + items_of(Some(sd::EventView::ImageData(y))));
            assert(items_of(None) + items_of(None) =~= items_of(None));
        },
        _ => {
            match hand_on(d, second) {
                Ok(two) => {
                    assert(items_of(None) + items_of(two.event) =~= items_of(two.event));
                },
                Err(_) => {},
            }
        },
    }
}

/// The loop over both layers leaves the chunk splitter's state well formed.
proof fn lemma_decode_keeps_wf(f: FrameState, d: DecoderState, input: Seq<u8>)
    requires
        f.wf(),
    ensures
        decode(f, d, input) matches Ok(r) ==> r.frame.wf(),
    decreases input.len(), idles(f),
{
    if input.len() > 0 {
        lemma_step_keeps_wf(f, input);
        match dechunker::step(f, input) {
            Err(_) => {},
            Ok(split) => match hand_on(d, split.event) {
                Err(_) => {},
                Ok(step) => {
                    lemma_decode_keeps_wf(
                        split.state,
                        step.state,
                        input.subrange(split.consumed as int, input.len() as int),
                    );
                },
            },
        }
    }
}

/// The loop over an input whose first round is `split` and `step`.
proof fn lemma_decode_unfolds(
    f: FrameState,
    d: DecoderState,
    input: Seq<u8>,
    split: dechunker::Step,
    step: sd::Step,
)
    requires
        f.wf(),
        input.len() > 0,
        dechunker::step(f, input) == Ok::<dechunker::Step, Error>(split),
        hand_on(d, split.event) == Ok::<sd::Step, Halt>(step),
    ensures
        decode(f, d, input) == decode_on(
            Ok(Decoding { frame: split.state, decoder: step.state, items: items_of(step.event) }),
            input.subrange(split.consumed as int, input.len() as int),
        ),
{
}

/// Continuing a loop on `b` after `a` is continuing it on `a`, then on `b`.
proof fn lemma_decode_on_twice(before: Decoding, a: Seq<u8>, b: Seq<u8>)
    requires
        before.frame.wf(),
        decode(before.frame, before.decoder, a + b) == decode_on(
            decode(before.frame, before.decoder, a),
            b,
        ),
    ensures
        decode_on(Ok(before), a + b) == decode_on(decode_on(Ok(before), a), b),
{
    match decode(before.frame, before.decoder, a) {
        Err(_) => {},
        Ok(r1) => match decode(r1.frame, r1.decoder, b) {
            Err(_) => {},
            Ok(r2) => {
                assert(before.items + (r1.items + r2.items) =~= (before.items + r1.items)
                    + r2.items);
            },
        },
    }
}

/// The split law where the first step ends within `a`, given the law for
/// what follows that step.
proof fn lemma_decode_split_within(
    f: FrameState,
    d: DecoderState,
    a: Seq<u8>,
    b: Seq<u8>,
    split: dechunker::Step,
    step: sd::Step,
)
    requires
        f.wf(),
        0 < a.len(),
        f.wanted() <= a.len(),
        dechunker::step(f, a) == Ok::<dechunker::Step, Error>(split),
        hand_on(d, split.event) == Ok::<sd::Step, Halt>(step),
        split.state.wf(),
        split.consumed <= a.len(),
        ({
            let rest = a.subrange(split.consumed as int, a.len() as int);
            decode(split.state, step.state, rest + b) == decode_on(
                decode(split.state, step.state, rest),
                b,
            )
        }),
    ensures
        decode(f, d, a + b) == decode_on(decode(f, d, a), b),
{
    let n = split.consumed as int;
    let rest = a.subrange(n, a.len() as int);
    let before = Decoding { frame: split.state, decoder: step.state, items: items_of(step.event) };
    assert((a + b).subrange(n, (a + b).len() as int) =~= rest + b);
    lemma_step_within(f, a, b);
    lemma_decode_unfolds(f, d, a, split, step);
    lemma_decode_unfolds(f, d, a + b, split, step);
    lemma_decode_on_twice(before, rest, b);
}

/// The loop over an input that one round uses up.
proof fn lemma_decode_one_round(
    f: FrameState,
    d: DecoderState,
    input: Seq<u8>,
    split: dechunker::Step,
    step: sd::Step,
)
    requires
        f.wf(),
        input.len() > 0,
        dechunker::step(f, input) == Ok::<dechunker::Step, Error>(split),
        split.consumed == input.len(),
        split.state.wf(),
        hand_on(d, split.event) == Ok::<sd::Step, Halt>(step),
    ensures
        decode(f, d, input) == Ok::<Decoding, Halt>(
            Decoding { frame: split.state, decoder: step.state, items: items_of(step.event) },
        ),
{
    lemma_decode_unfolds(f, d, input, split, step);
    assert(input.subrange(input.len() as int, input.len() as int) =~= Seq::<u8>::empty());
    assert(items_of(step.event) + Seq::<Item>::empty() =~= items_of(step.event));
}

/// Two decodings that begin with `first` and `second`, or with `both`, and go
/// on alike are the same, where `both` holds the items of the two.
proof fn lemma_decodings_join(first: Decoding, second: Decoding, both: Decoding, rest: Seq<u8>)
    requires
        both.frame == second.frame,
        both.decoder == second.decoder,
        both.items == first.items + second.items,
    ensures
        match decode(second.frame, second.decoder, rest) {
            Err(h) => decode_on(Ok(both), rest) == Err::<Decoding, Halt>(h),
            Ok(r) => decode_on(Ok(both), rest) == Ok::<Decoding, Halt>(
                Decoding {
                    frame: r.frame,
                    decoder: r.decoder,
                    items: first.items + (second.items + r.items),
                },
            ),
        },
{
    match decode(second.frame, second.decoder, rest) {
        Err(_) => {},
        Ok(r) => {
            assert((first.items + second.items) + r.items =~= first.items + (second.items
                + r.items));
        },
    }
}

/// The split law where the first step on `a + b` reaches into `b` and the
/// rounds on `a`, on `b` and on `a + b` go through.
proof fn lemma_decode_split_across_rounds(
    f: FrameState,
    d: DecoderState,
    a: Seq<u8>,
    b: Seq<u8>,
    first: dechunker::Step,
    one: sd::Step,
    second: dechunker::Step,
    two: sd::Step,
    both: dechunker::Step,
    whole: sd::Step,
)
    requires
        f.wf(),
        0 < a.len(),
        0 < b.len(),
        dechunker::step(f, a) == Ok::<dechunker::Step, Error>(first),
        first.consumed == a.len(),
        first.state.wf(),
        hand_on(d, first.event) == Ok::<sd::Step, Halt>(one),
        dechunker::step(first.state, b) == Ok::<dechunker::Step, Error>(second),
        second.consumed <= b.len(),
        hand_on(one.state, second.event) == Ok::<sd::Step, Halt>(two),
        dechunker::step(f, a + b) == Ok::<dechunker::Step, Error>(both),
        both.state == second.state,
        both.consumed == a.len() + second.consumed,
        hand_on(d, both.event) == Ok::<sd::Step, Halt>(whole),
        whole.state == two.state,
        items_of(whole.event) == items_of(one.event) + items_of(two.event),
    ensures
        decode(f, d, a + b) == decode_on(decode(f, d, a), b),
{
    let n = second.consumed as int;
    let rest = b.subrange(n, b.len() as int);
    assert((a + b).subrange(a.len() + n, (a + b).len() as int) =~= rest);
    lemma_decode_one_round(f, d, a, first, one);
    lemma_decode_unfolds(first.state, one.state, b, second, two);
    lemma_decode_unfolds(f, d, a + b, both, whole);
    lemma_decodings_join(
        Decoding { frame: first.state, decoder: one.state, items: items_of(one.event) },
        Decoding { frame: second.state, decoder: two.state, items: items_of(two.event) },
        Decoding { frame: both.state, decoder: whole.state, items: items_of(whole.event) },
        rest,
    );
}

/// The split law where the first step on `a + b` reaches into `b`.
proof fn lemma_decode_split_across(f: FrameState, d: DecoderState, a: Seq<u8>, b: Seq<u8>)
    requires
        f.wf(),
        0 < a.len() < f.wanted(),
        0 < b.len(),
    ensures
        decode(f, d, a + b) == decode_on(decode(f, d, a), b),
{
    lemma_step_across(f, a, b);
    match dechunker::step(f, a) {
        Err(_) => {},
        Ok(first) => match hand_on(d, first.event) {
            Err(_) => {
                match dechunker::step(first.state, b) {
                    Err(_) => {},
                    Ok(second) => {
                        lemma_hand_on_joined(d, first.event, second.event);
                    },
                }
            },
            Ok(one) => {
                lemma_decode_one_round(f, d, a, first, one);
                match dechunker::step(first.state, b) {
                    Err(_) => {},
                    Ok(second) => {
                        lemma_step_keeps_wf(first.state, b);
                        lemma_hand_on_joined(d, first.event, second.event);
                        match hand_on(one.state, second.event) {
                            Err(_) => {},
                            Ok(two) => {
                                let both = dechunker::step(f, a + b)->Ok_0;
                                let whole = hand_on(d, both.event)->Ok_0;
                                lemma_decode_split_across_rounds(
                                    f,
                                    d,
                                    a,
                                    b,
                                    first,
                                    one,
                                    second,
                                    two,
                                    both,
                                    whole,
                                );
                            },
                        }
                    },
                }
            },
        },
    }
}

/// The loop over `a` followed by `b` is the loop over `a`, continued on `b`.
pub(super) proof fn lemma_decode_split(f: FrameState, d: DecoderState, a: Seq<u8>, b: Seq<u8>)
    requires
        f.wf(),
    ensures
        decode(f, d, a + b) == decode_on(decode(f, d, a), b),
    decreases a.len() + b.len(), idles(f),
{
    if a.len() == 0 {
        assert(a + b =~= b);
        match decode(f, d, b) {
            Ok(r) => {
                assert(Seq::<Item>::empty() + r.items =~= r.items);
            },
            Err(_) => {},
        }
    } else if b.len() == 0 {
        assert(a + b =~= a);
        lemma_decode_keeps_wf(f, d, a);
        match decode(f, d, a) {
            Ok(r) => {
                assert(r.items + Seq::<Item>::empty() =~= r.items);
            },
            Err(_) => {},
        }
    } else if f.wanted() <= a.len() {
        lemma_step_within(f, a, b);
        lemma_step_keeps_wf(f, a);
        match dechunker::step(f, a) {
            Err(_) => {},
            Ok(split) => match hand_on(d, split.event) {
                Err(_) => {},
                Ok(step) => {
                    lemma_decode_split(
                        split.state,
                        step.state,
                        a.subrange(split.consumed as int, a.len() as int),
                        b,
                    );
                    lemma_decode_split_within(f, d, a, b, split, step);
                },
            },
        }
    } else {
        lemma_decode_split_across(f, d, a, b);
    }
}

} // verus!
