//! The streaming compression driver.
//!
//! The driver turns a source slice into the front of a destination slice by
//! stepping a codec until it reports something other than
//! [`ReturnCode::Okay`]. It feeds the codec plain steps while bytes of the
//! source are left to hand out, and asks it to finish from then on.

use vstd::prelude::*;
use crate::code::ReturnCode;
use crate::codec::ZlibImplementation;
use crate::config::{DeflateConfig, Flush};
use crate::run::{
    all_okay,
    codec_run,
    destination,
    driven,
    flush_for,
    lemma_destination_is_produced,
    lemma_run_covers,
    produced_bytes,
    replay,
    stopped,
    Session,
    StepRecord,
};
use crate::stream::Stream;

verus! {

/// What the driver returns for a run that left the stream as `strm` when
/// ending the session reported `end`: the length of the initialized front
/// of the destination with success, or the report of a session that was
/// given up before its stream was complete.
pub open spec fn spec_deflate_result(strm: Stream, end: ReturnCode) -> Result<
    (usize, ReturnCode),
    ReturnCode,
> {
    if end == ReturnCode::Okay {
        Ok((strm.output.next, ReturnCode::Okay))
    } else {
        Err(end)
    }
}

/// Whether `r` and `out` are what the driver gives for `config`, the
/// destination `dest` and `source` when the codec `T` did `run`.
///
/// Both are buffers in memory, and the session was started with `config`.
/// A session that does not start is reported as it is, with nothing
/// written. Otherwise the steps are a complete run over `source` into
/// `dest`, made by the codec from the state that the start gave; the
/// session was ended in the state that the last step left; the destination
/// holds what the steps left in it; and the result is that of the stream
/// after the run and of the end of the session.
pub open spec fn compressed<T: ZlibImplementation>(
    config: DeflateConfig,
    dest: Seq<u8>,
    source: Seq<u8>,
    run: Session<T::State>,
    r: Result<(usize, ReturnCode), ReturnCode>,
    out: Seq<u8>,
) -> bool {
    &&& source.len() <= usize::MAX
    &&& dest.len() <= usize::MAX
    &&& run.states.len() == run.steps.len() + 1
    &&& T::deflate_started(config, run.states[0], run.init)
    &&& if run.init != ReturnCode::Okay {
        &&& run.steps.len() == 0
        &&& r == Ok::<(usize, ReturnCode), ReturnCode>((0usize, run.init))
        &&& out == dest
    } else {
        &&& stopped(source, dest, true, run.steps)
        &&& codec_run::<T>(true, run.states, run.steps)
        &&& T::deflate_ended(run.states.last(), run.end)
        &&& r == spec_deflate_result(replay(source.len(), dest.len(), run.steps), run.end)
        &&& out == destination(dest, source.len(), run.steps)
    }
}

/// The flush mode of the next step of a compression: plain while bytes of
/// the source are left to hand out, finishing from then on.
pub fn deflate_flush(strm: &Stream) -> (flush: Flush)
    ensures
        flush == flush_for(true, *strm),
{
    if strm.input.left > 0 {
        Flush::NoFlush
    } else {
        Flush::Finish
    }
}

/// Computes what the driver returns once the steps have left the stream as
/// `strm` and ending the session has reported `end`.
pub fn deflate_result(strm: &Stream, end: ReturnCode) -> (r: Result<(usize, ReturnCode), ReturnCode>)
    ensures
        r == spec_deflate_result(*strm, end),
{
    if end == ReturnCode::Okay {
        Ok((strm.total_out(), ReturnCode::Okay))
    } else {
        Err(end)
    }
}

/// Steps a compression session over `input` into `target` until the codec
/// reports something other than [`ReturnCode::Okay`], and gives the stream
/// as the last step left it.
fn deflate_steps<T: ZlibImplementation>(state: &mut T::State, target: &mut [u8], input: &[u8]) -> (strm:
    Stream)
    ensures
        final(target)@.len() == old(target)@.len(),
        exists|states: Seq<T::State>, steps: Seq<StepRecord>|
            {
                &&& #[trigger] codec_run::<T>(true, states, steps)
                &&& states[0] == *old(state)
                &&& states.last() == *final(state)
                &&& stopped(input@, old(target)@, true, steps)
                &&& strm == replay(input@.len(), old(target)@.len(), steps)
                &&& final(target)@ == destination(old(target)@, input@.len(), steps)
            },
{
    let source_len: usize = input.len();
    let space: usize = target.len();
    let mut strm = Stream::bind(source_len, space);
    let ghost dest = target@;
    let ghost mut steps: Seq<StepRecord> = Seq::empty();
    let ghost mut states: Seq<T::State> = seq![*state];
    loop
        invariant_except_break
            all_okay(steps),
        invariant
            input@.len() == source_len,
            target@.len() == space,
            dest.len() == space,
            driven(input@, dest, true, steps),
            codec_run::<T>(true, states, steps),
            states[0] == *old(state),
            states.last() == *state,
            strm == replay(source_len as nat, space as nat, steps),
            strm.covers(source_len as nat, space as nat),
            target@ == destination(dest, source_len as nat, steps),
        ensures
            stopped(input@, dest, true, steps),
        decreases strm.input.left + strm.input.avail + strm.output.left + strm.output.avail,
    {
        strm.refill();
        let ghost found = strm;
        let ghost prior = target@;
        let flush = deflate_flush(&strm);
        let chunk = &input[strm.input.next..strm.input.next + strm.input.avail as usize];
        let (_, rest) = target.split_at_mut(strm.output.next);
        let (window, _) = rest.split_at_mut(strm.output.avail as usize);
        let ghost handed_window = window@;
        let step = T::deflate(state, chunk, window, flush);
        let ghost rec = StepRecord {
            input: chunk@,
            space: handed_window,
            flush,
            window: window@,
            step,
        };
        strm.advance(step);
        proof {
            let run = steps.push(rec);
            assert(run.drop_last() == steps);
            assert(rec.space == prior.subrange(
                found.output.next as int,
                found.output.next + found.output.avail,
            ));
            steps = run;
            states = states.push(*state);
        }
        if step.code != ReturnCode::Okay {
            break ;
        }
    }
    strm
}

/// Compresses `input` into the front of `output` with the codec `T`, and
/// gives the length of that front together with the status.
///
/// The destination is never resized, and it has to be large enough: a
/// session that the codec reports as given up before its stream was
/// complete is no result but a fault of the caller, and comes back as
/// `Err` with that report. A session that does not start is reported as it
/// is: no step is made and the session is not ended.
pub fn compress_slice<T: ZlibImplementation>(
    output: &mut [u8],
    input: &[u8],
    config: DeflateConfig,
) -> (r: Result<(usize, ReturnCode), ReturnCode>)
    ensures
        final(output)@.len() == old(output)@.len(),
        r matches Ok(done) ==> done.0 <= old(output)@.len(),
        exists|run: Session<T::State>| #[trigger]
            compressed::<T>(config, old(output)@, input@, run, r, final(output)@),
{
    let ghost dest = output@;
    assert(input@.len() == input.len() && dest.len() == output.len());
    let (mut state, init) = T::deflate_init(config);
    let ghost started = state;
    if init != ReturnCode::Okay {
        proof {
            let run = Session::<T::State> {
                init,
                states: seq![started],
                steps: Seq::empty(),
                end: ReturnCode::Okay,
            };
            assert(compressed::<T>(config, dest, input@, run, Ok((0usize, init)), output@));
        }
        return Ok((0, init));
    }
    let strm = deflate_steps::<T>(&mut state, output, input);
    let ghost stepped = state;
    let end = T::deflate_end(state);
    let r = deflate_result(&strm, end);
    proof {
        let (states, steps) = choose|states: Seq<T::State>, steps: Seq<StepRecord>|
            {
                &&& #[trigger] codec_run::<T>(true, states, steps)
                &&& states[0] == started
                &&& states.last() == stepped
                &&& stopped(input@, dest, true, steps)
                &&& strm == replay(input@.len(), dest.len(), steps)
                &&& output@ == destination(dest, input@.len(), steps)
            };
        let run = Session::<T::State> { init, states, steps, end };
        lemma_compressed_is_produced::<T>(config, dest, input@, run, r, output@);
    }
    r
}

/// The driver gives up exactly when a session that started is reported at
/// its end as incomplete: it never hands back a front of the destination
/// from such a session. Any other call reports success together with what
/// was produced, or the report of a session that did not start together
/// with nothing.
pub proof fn lemma_compressed_or_given_up<T: ZlibImplementation>(
    config: DeflateConfig,
    dest: Seq<u8>,
    source: Seq<u8>,
    run: Session<T::State>,
    r: Result<(usize, ReturnCode), ReturnCode>,
    out: Seq<u8>,
)
    requires
        compressed::<T>(config, dest, source, run, r, out),
    ensures
        r is Err <==> run.init == ReturnCode::Okay && run.end != ReturnCode::Okay,
        r matches Err(code) ==> code == run.end,
        r matches Ok(done) ==> if run.init == ReturnCode::Okay {
            done.1 == ReturnCode::Okay && done.0 == replay(
                source.len(),
                dest.len(),
                run.steps,
            ).spec_total_out()
        } else {
            done == (0usize, run.init) && out == dest
        },
{
}

/// The driver never reports more bytes than the destination holds and
/// never resizes it, and the reported front is what the steps of the codec
/// produced, each byte once and in order.
pub proof fn lemma_compressed_is_produced<T: ZlibImplementation>(
    config: DeflateConfig,
    dest: Seq<u8>,
    source: Seq<u8>,
    run: Session<T::State>,
    r: Result<(usize, ReturnCode), ReturnCode>,
    out: Seq<u8>,
)
    requires
        compressed::<T>(config, dest, source, run, r, out),
    ensures
        out.len() == dest.len(),
        r matches Ok(done) ==> done.0 <= dest.len(),
        r matches Ok(done) ==> run.init == ReturnCode::Okay ==> out.subrange(0, done.0 as int)
            == produced_bytes(run.steps),
{
    if run.init == ReturnCode::Okay {
        lemma_run_covers(source, dest, true, run.steps);
        lemma_destination_is_produced(source, dest, true, run.steps);
    }
}

} // verus!
