//! The model of a driven session: what the driver hands to each step of a
//! codec, and what becomes of the cursors and of the destination.
//!
//! A run is the sequence of its steps. The driver decides what each step is
//! handed; the codec decides what each step reports. The laws below hold of
//! every run, whatever the codec reported.

use vstd::prelude::*;
use crate::code::ReturnCode;
use crate::codec::{step_fits, ZlibImplementation};
use crate::config::Flush;
use crate::stream::{Cursor, Step, Stream, STEP_MAX};

verus! {

/// One step of a run: what the codec was handed and what it gave back.
pub struct StepRecord {
    /// The chunk of the source that the step was handed.
    pub input: Seq<u8>,
    /// The window of the destination as the step found it.
    pub space: Seq<u8>,
    /// The flush mode that the step was called with.
    pub flush: Flush,
    /// The window of the destination as the step left it.
    pub window: Seq<u8>,
    /// What the step reported.
    pub step: Step,
}

impl StepRecord {
    /// The bytes that the step took from its chunk.
    pub open spec fn consumed(self) -> Seq<u8> {
        self.input.subrange(0, self.step.consumed as int)
    }

    /// The bytes that the step wrote to its window.
    pub open spec fn produced(self) -> Seq<u8> {
        self.window.subrange(0, self.step.produced as int)
    }
}

/// What a codec did in the course of one call of a driver.
pub struct Session<S> {
    /// What starting the session reported.
    pub init: ReturnCode,
    /// The states of the session: as it started, and after each step.
    pub states: Seq<S>,
    /// The steps, in order; none where the session did not start.
    pub steps: Seq<StepRecord>,
    /// What ending the session reported, where it started.
    pub end: ReturnCode,
}

/// The flush mode of a step that finds the stream as `strm`: a finishing
/// driver asks the codec to finish once no byte of the source is left to
/// hand out; any other step is a plain one.
pub open spec fn flush_for(finishing: bool, strm: Stream) -> Flush {
    if finishing && strm.input.left == 0 {
        Flush::Finish
    } else {
        Flush::NoFlush
    }
}

/// The stream after `steps`: bound to the start of both buffers, then for
/// each step refilled and advanced by what the step reported.
pub open spec fn replay(source_len: nat, space: nat, steps: Seq<StepRecord>) -> Stream
    decreases steps.len(),
{
    if steps.len() == 0 {
        Stream::spec_bind(source_len, space)
    } else {
        replay(source_len, space, steps.drop_last()).spec_refill().spec_advance(steps.last().step)
    }
}

/// The stream as the step after `steps` finds it.
pub open spec fn stream_at(source_len: nat, space: nat, steps: Seq<StepRecord>) -> Stream {
    replay(source_len, space, steps).spec_refill()
}

/// Whether `rec` is a step on a stream found as `strm` over `source` into
/// `dest`: it was handed the chunk and the window that the cursors say,
/// with the flush mode of the driver, its report fits them, and it left the
/// window's length alone.
pub open spec fn handed(
    strm: Stream,
    source: Seq<u8>,
    dest: Seq<u8>,
    finishing: bool,
    rec: StepRecord,
) -> bool {
    &&& rec.input == source.subrange(
        strm.input.next as int,
        strm.input.next + strm.input.avail,
    )
    &&& rec.space == dest.subrange(strm.output.next as int, strm.output.next + strm.output.avail)
    &&& rec.space.len() == strm.output.avail
    &&& rec.window.len() == strm.output.avail
    &&& rec.flush == flush_for(finishing, strm)
    &&& step_fits(rec.step, rec.input.len(), rec.window.len())
}

/// Whether `steps` is a run of the driver over `source` into `dest`: each
/// step was handed what the cursors said after the steps before it, out of
/// the source and out of the destination as those steps left it.
pub open spec fn driven(
    source: Seq<u8>,
    dest: Seq<u8>,
    finishing: bool,
    steps: Seq<StepRecord>,
) -> bool
    decreases steps.len(),
{
    steps.len() == 0 || {
        &&& driven(source, dest, finishing, steps.drop_last())
        &&& handed(
            stream_at(source.len(), dest.len(), steps.drop_last()),
            source,
            destination(dest, source.len(), steps.drop_last()),
            finishing,
            steps.last(),
        )
    }
}

/// Whether every step of `steps` reported [`ReturnCode::Okay`].
pub open spec fn all_okay(steps: Seq<StepRecord>) -> bool {
    forall|i: int| 0 <= i < steps.len() ==> (#[trigger] steps[i]).step.code == ReturnCode::Okay
}

/// Whether `steps` is a complete run: the driver went on while the codec
/// reported [`ReturnCode::Okay`] and stopped at the first other report.
pub open spec fn stopped(
    source: Seq<u8>,
    dest: Seq<u8>,
    finishing: bool,
    steps: Seq<StepRecord>,
) -> bool {
    &&& steps.len() > 0
    &&& driven(source, dest, finishing, steps)
    &&& all_okay(steps.drop_last())
    &&& steps.last().step.code != ReturnCode::Okay
}

/// A destination after a step left `window` at offset `at` of it.
pub open spec fn written(dest: Seq<u8>, at: int, window: Seq<u8>) -> Seq<u8> {
    dest.subrange(0, at) + window + dest.subrange(at + window.len(), dest.len() as int)
}

/// The destination after `steps`, each of which left its window where the
/// output cursor stood.
pub open spec fn destination(dest: Seq<u8>, source_len: nat, steps: Seq<StepRecord>) -> Seq<u8>
    decreases steps.len(),
{
    if steps.len() == 0 {
        dest
    } else {
        written(
            destination(dest, source_len, steps.drop_last()),
            stream_at(source_len, dest.len(), steps.drop_last()).output.next as int,
            steps.last().window,
        )
    }
}

/// All that the steps consumed, in order.
pub open spec fn consumed_bytes(steps: Seq<StepRecord>) -> Seq<u8>
    decreases steps.len(),
{
    if steps.len() == 0 {
        Seq::empty()
    } else {
        consumed_bytes(steps.drop_last()) + steps.last().consumed()
    }
}

/// All that the steps produced, in order.
pub open spec fn produced_bytes(steps: Seq<StepRecord>) -> Seq<u8>
    decreases steps.len(),
{
    if steps.len() == 0 {
        Seq::empty()
    } else {
        produced_bytes(steps.drop_last()) + steps.last().produced()
    }
}

/// Whether `rec` is a step that the codec `T` may make from the state
/// `before` to the state `after`: a step of a compression for a finishing
/// driver, of a decompression for any other.
pub open spec fn codec_stepped<T: ZlibImplementation>(
    finishing: bool,
    before: T::State,
    rec: StepRecord,
    after: T::State,
) -> bool {
    if finishing {
        T::deflate_stepped(before, rec.input, rec.space, rec.flush, after, rec.window, rec.step)
    } else {
        T::inflate_stepped(before, rec.input, rec.space, rec.flush, after, rec.window, rec.step)
    }
}

/// Whether `steps` are steps that the codec `T` may make in a row through
/// `states`: one state more than steps, each step from its state to the
/// next.
pub open spec fn codec_run<T: ZlibImplementation>(
    finishing: bool,
    states: Seq<T::State>,
    steps: Seq<StepRecord>,
) -> bool {
    &&& states.len() == steps.len() + 1
    &&& forall|k: int|
        0 <= k < steps.len() ==> codec_stepped::<T>(
            finishing,
            states[k],
            #[trigger] steps[k],
            states[k + 1],
        )
}

/// A refill moves bytes from what is left to what is handed out.
pub proof fn lemma_refill_covers(cursor: Cursor, len: nat)
    requires
        cursor.covers(len),
    ensures
        cursor.spec_refill().covers(len),
        cursor.spec_refill().next == cursor.next,
        cursor.spec_refill().left <= cursor.left,
        cursor.left == 0 ==> cursor.spec_refill().left == 0,
{
}

/// An advance moves bytes from what is handed out to what was transferred.
pub proof fn lemma_advance_covers(cursor: Cursor, len: nat, n: nat)
    requires
        cursor.covers(len),
        len <= usize::MAX,
        n <= cursor.avail,
    ensures
        cursor.spec_advance(n).covers(len),
        cursor.spec_advance(n).next == cursor.next + n,
        cursor.spec_advance(n).left == cursor.left,
{
}

/// Every byte of both buffers is accounted for after any run: what the
/// steps transferred, what is handed out and what is left add up to the
/// length of the buffer. So no run consumes more than the source holds or
/// produces more than the destination takes, and the destination keeps its
/// length.
pub proof fn lemma_run_covers(
    source: Seq<u8>,
    dest: Seq<u8>,
    finishing: bool,
    steps: Seq<StepRecord>,
)
    requires
        source.len() <= usize::MAX,
        dest.len() <= usize::MAX,
        driven(source, dest, finishing, steps),
    ensures
        replay(source.len(), dest.len(), steps).covers(source.len(), dest.len()),
        stream_at(source.len(), dest.len(), steps).covers(source.len(), dest.len()),
        replay(source.len(), dest.len(), steps).input.next <= source.len(),
        replay(source.len(), dest.len(), steps).spec_total_out() <= dest.len(),
        destination(dest, source.len(), steps).len() == dest.len(),
    decreases steps.len(),
{
    if steps.len() > 0 {
        let before = steps.drop_last();
        lemma_run_covers(source, dest, finishing, before);
        let found = stream_at(source.len(), dest.len(), before);
        let step = steps.last().step;
        lemma_advance_covers(found.input, source.len(), step.consumed as nat);
        lemma_advance_covers(found.output, dest.len(), step.produced as nat);
    }
    let after = replay(source.len(), dest.len(), steps);
    lemma_refill_covers(after.input, source.len());
    lemma_refill_covers(after.output, dest.len());
}

/// A run that is cut short is a run.
pub proof fn lemma_driven_prefix(
    source: Seq<u8>,
    dest: Seq<u8>,
    finishing: bool,
    steps: Seq<StepRecord>,
    k: int,
)
    requires
        driven(source, dest, finishing, steps),
        0 <= k <= steps.len(),
    ensures
        driven(source, dest, finishing, steps.take(k)),
    decreases steps.len(),
{
    if k == steps.len() {
        assert(steps.take(k) == steps);
    } else {
        lemma_driven_prefix(source, dest, finishing, steps.drop_last(), k);
        assert(steps.drop_last().take(k) == steps.take(k));
    }
}

/// The step at index `k` of a run found the stream and the destination as
/// the steps before it left them.
pub proof fn lemma_driven_step(
    source: Seq<u8>,
    dest: Seq<u8>,
    finishing: bool,
    steps: Seq<StepRecord>,
    k: int,
)
    requires
        driven(source, dest, finishing, steps),
        0 <= k < steps.len(),
    ensures
        handed(
            stream_at(source.len(), dest.len(), steps.take(k)),
            source,
            destination(dest, source.len(), steps.take(k)),
            finishing,
            steps[k],
        ),
{
    lemma_driven_prefix(source, dest, finishing, steps, k + 1);
    assert(steps.take(k + 1).drop_last() == steps.take(k));
}

/// No step of a run is handed more than [`STEP_MAX`] bytes of input or of
/// output space, however large the buffers are, and no step transfers more
/// than it was handed.
pub proof fn lemma_step_bounded(
    source: Seq<u8>,
    dest: Seq<u8>,
    finishing: bool,
    steps: Seq<StepRecord>,
    k: int,
)
    requires
        source.len() <= usize::MAX,
        dest.len() <= usize::MAX,
        driven(source, dest, finishing, steps),
        0 <= k < steps.len(),
    ensures
        steps[k].input.len() <= STEP_MAX,
        steps[k].space.len() <= STEP_MAX,
        steps[k].window.len() == steps[k].space.len(),
        steps[k].step.consumed <= steps[k].input.len(),
        steps[k].step.produced <= steps[k].window.len(),
{
    lemma_driven_step(source, dest, finishing, steps, k);
    lemma_driven_prefix(source, dest, finishing, steps, k);
    lemma_run_covers(source, dest, finishing, steps.take(k));
}

/// The count of bytes produced never goes down in the course of a run, nor
/// does the count of bytes consumed.
pub proof fn lemma_totals_monotonic(
    source: Seq<u8>,
    dest: Seq<u8>,
    finishing: bool,
    steps: Seq<StepRecord>,
    k: int,
)
    requires
        source.len() <= usize::MAX,
        dest.len() <= usize::MAX,
        driven(source, dest, finishing, steps),
        0 <= k <= steps.len(),
    ensures
        replay(source.len(), dest.len(), steps.take(k)).spec_total_out() <= replay(
            source.len(),
            dest.len(),
            steps,
        ).spec_total_out(),
        replay(source.len(), dest.len(), steps.take(k)).input.next <= replay(
            source.len(),
            dest.len(),
            steps,
        ).input.next,
    decreases steps.len(),
{
    if k == steps.len() {
        assert(steps.take(k) == steps);
    } else {
        let before = steps.drop_last();
        lemma_totals_monotonic(source, dest, finishing, before, k);
        assert(before.take(k) == steps.take(k));
        lemma_run_covers(source, dest, finishing, before);
        let found = stream_at(source.len(), dest.len(), before);
        let step = steps.last().step;
        lemma_advance_covers(found.input, source.len(), step.consumed as nat);
        lemma_advance_covers(found.output, dest.len(), step.produced as nat);
    }
}

/// Every byte of the source is handed to the codec at most once and in
/// order: what the steps of a run consumed, put end to end, is the front of
/// the source up to the input cursor.
pub proof fn lemma_consumed_is_source_prefix(
    source: Seq<u8>,
    dest: Seq<u8>,
    finishing: bool,
    steps: Seq<StepRecord>,
)
    requires
        source.len() <= usize::MAX,
        dest.len() <= usize::MAX,
        driven(source, dest, finishing, steps),
    ensures
        consumed_bytes(steps) == source.subrange(
            0,
            replay(source.len(), dest.len(), steps).input.next as int,
        ),
    decreases steps.len(),
{
    if steps.len() > 0 {
        let before = steps.drop_last();
        lemma_consumed_is_source_prefix(source, dest, finishing, before);
        lemma_run_covers(source, dest, finishing, before);
        let found = stream_at(source.len(), dest.len(), before);
        lemma_advance_covers(found.input, source.len(), steps.last().step.consumed as nat);
    }
}

/// Every step is handed the source from where the steps before it stopped:
/// what they consumed and the chunk of the step, put end to end, are a front
/// of the source. A finishing step is handed all the rest: with its chunk
/// the codec has seen the whole source.
pub proof fn lemma_chunk_continues_source(
    source: Seq<u8>,
    dest: Seq<u8>,
    finishing: bool,
    steps: Seq<StepRecord>,
    k: int,
)
    requires
        source.len() <= usize::MAX,
        dest.len() <= usize::MAX,
        driven(source, dest, finishing, steps),
        0 <= k < steps.len(),
    ensures
        consumed_bytes(steps.take(k)).len() + steps[k].input.len() <= source.len(),
        consumed_bytes(steps.take(k)) + steps[k].input == source.subrange(
            0,
            (consumed_bytes(steps.take(k)).len() + steps[k].input.len()) as int,
        ),
        steps[k].flush == Flush::Finish ==> consumed_bytes(steps.take(k)) + steps[k].input == source,
{
    let before = steps.take(k);
    lemma_driven_step(source, dest, finishing, steps, k);
    lemma_driven_prefix(source, dest, finishing, steps, k);
    lemma_run_covers(source, dest, finishing, before);
    lemma_consumed_is_source_prefix(source, dest, finishing, before);
}

/// Every byte that a step produced is in the destination exactly once and
/// in order: the front of the destination up to the output cursor is what
/// the steps of a run produced, put end to end.
pub proof fn lemma_destination_is_produced(
    source: Seq<u8>,
    dest: Seq<u8>,
    finishing: bool,
    steps: Seq<StepRecord>,
)
    requires
        source.len() <= usize::MAX,
        dest.len() <= usize::MAX,
        driven(source, dest, finishing, steps),
    ensures
        produced_bytes(steps) == destination(dest, source.len(), steps).subrange(
            0,
            replay(source.len(), dest.len(), steps).spec_total_out() as int,
        ),
    decreases steps.len(),
{
    if steps.len() > 0 {
        let before = steps.drop_last();
        lemma_destination_is_produced(source, dest, finishing, before);
        lemma_run_covers(source, dest, finishing, before);
        let found = stream_at(source.len(), dest.len(), before);
        lemma_advance_covers(found.output, dest.len(), steps.last().step.produced as nat);
    }
}

/// No step disturbs what the steps before it produced, and no step writes
/// outside its window: a byte of the destination outside the window of a
/// step is after the step what it was before.
pub proof fn lemma_step_keeps_the_rest(
    source: Seq<u8>,
    dest: Seq<u8>,
    finishing: bool,
    steps: Seq<StepRecord>,
    k: int,
    i: int,
)
    requires
        source.len() <= usize::MAX,
        dest.len() <= usize::MAX,
        driven(source, dest, finishing, steps),
        0 <= k < steps.len(),
        0 <= i < dest.len(),
        i < replay(source.len(), dest.len(), steps.take(k)).spec_total_out() || i >= replay(
            source.len(),
            dest.len(),
            steps.take(k),
        ).spec_total_out() + steps[k].space.len(),
    ensures
        destination(dest, source.len(), steps.take(k + 1))[i] == destination(
            dest,
            source.len(),
            steps.take(k),
        )[i],
{
    lemma_driven_step(source, dest, finishing, steps, k);
    lemma_driven_prefix(source, dest, finishing, steps, k);
    lemma_run_covers(source, dest, finishing, steps.take(k));
    assert(steps.take(k + 1).drop_last() == steps.take(k));
}

/// Every step that reported [`ReturnCode::Okay`] transferred a byte at
/// least: a run of such steps is no longer than the bytes it consumed and
/// produced.
pub proof fn lemma_okay_steps_progress(
    source: Seq<u8>,
    dest: Seq<u8>,
    finishing: bool,
    steps: Seq<StepRecord>,
)
    requires
        source.len() <= usize::MAX,
        dest.len() <= usize::MAX,
        driven(source, dest, finishing, steps),
        all_okay(steps),
    ensures
        steps.len() <= replay(source.len(), dest.len(), steps).input.next + replay(
            source.len(),
            dest.len(),
            steps,
        ).spec_total_out(),
    decreases steps.len(),
{
    if steps.len() > 0 {
        let before = steps.drop_last();
        lemma_okay_steps_progress(source, dest, finishing, before);
        lemma_run_covers(source, dest, finishing, before);
        let found = stream_at(source.len(), dest.len(), before);
        let rec = steps.last();
        lemma_advance_covers(found.input, source.len(), rec.step.consumed as nat);
        lemma_advance_covers(found.output, dest.len(), rec.step.produced as nat);
    }
}

/// A complete run is finite and short: it has no more steps than the two
/// buffers have bytes, and one that stopped it.
pub proof fn lemma_steps_bounded(
    source: Seq<u8>,
    dest: Seq<u8>,
    finishing: bool,
    steps: Seq<StepRecord>,
)
    requires
        source.len() <= usize::MAX,
        dest.len() <= usize::MAX,
        stopped(source, dest, finishing, steps),
    ensures
        steps.len() <= source.len() + dest.len() + 1,
{
    let before = steps.drop_last();
    lemma_driven_prefix(source, dest, finishing, steps, steps.len() - 1);
    lemma_okay_steps_progress(source, dest, finishing, before);
    lemma_run_covers(source, dest, finishing, before);
}

/// The flush mode changes at most once in a run, from plain to finishing:
/// a step after a finishing step is a finishing step. A driver that does
/// not finish calls every step plain.
pub proof fn lemma_flush_one_way(
    source: Seq<u8>,
    dest: Seq<u8>,
    finishing: bool,
    steps: Seq<StepRecord>,
    i: int,
    j: int,
)
    requires
        source.len() <= usize::MAX,
        dest.len() <= usize::MAX,
        driven(source, dest, finishing, steps),
        0 <= i <= j < steps.len(),
    ensures
        steps[i].flush == Flush::Finish || steps[i].flush == Flush::NoFlush,
        !finishing ==> steps[j].flush == Flush::NoFlush,
        steps[i].flush == Flush::Finish ==> steps[j].flush == Flush::Finish,
    decreases j - i,
{
    lemma_driven_step(source, dest, finishing, steps, i);
    lemma_driven_step(source, dest, finishing, steps, j);
    if i < j {
        lemma_flush_one_way(source, dest, finishing, steps, i, j - 1);
        lemma_driven_step(source, dest, finishing, steps, j - 1);
        lemma_driven_prefix(source, dest, finishing, steps, j - 1);
        lemma_run_covers(source, dest, finishing, steps.take(j - 1));
        let found = stream_at(source.len(), dest.len(), steps.take(j - 1));
        assert(steps.take(j).drop_last() == steps.take(j - 1));
        lemma_advance_covers(found.input, source.len(), steps[j - 1].step.consumed as nat);
        let next = replay(source.len(), dest.len(), steps.take(j));
        lemma_refill_covers(next.input, source.len());
    }
}

} // verus!
