//! The streaming decompression driver.
//!
//! The driver turns a source slice into the front of a destination slice by
//! stepping a codec until it reports something other than
//! [`ReturnCode::Okay`]. A destination without capacity is probed: the
//! codec is handed a stand-in of one byte, so that a stream that is complete
//! and holds nothing can be told from one that is cut short.

use vstd::prelude::*;
use crate::code::ReturnCode;
use crate::codec::ZlibImplementation;
use crate::config::{Flush, InflateConfig};
use crate::run::{
    all_okay,
    codec_run,
    destination,
    driven,
    lemma_destination_is_produced,
    lemma_run_covers,
    produced_bytes,
    replay,
    stopped,
    Session,
    StepRecord,
};
use crate::stream::Stream;

verus! {

/// The destination that the codec is driven into: the caller's, or the
/// stand-in of one byte where the caller's has no capacity.
pub open spec fn inflate_target(dest: Seq<u8>) -> Seq<u8> {
    if dest.len() == 0 {
        seq![1u8]
    } else {
        dest
    }
}

/// The status that the driver reports for a run that stopped with `err`
/// while `residual` bytes of the destination were still unused.
///
/// The end of the stream is success. A codec that asks for a dictionary was
/// fed bad data. A codec that stalls while space remains was fed a stream
/// that is cut short; one that stalls on a full destination has more to
/// give, and its report stands. Any other report stands.
pub open spec fn inflate_status(err: ReturnCode, residual: nat) -> ReturnCode {
    match err {
        ReturnCode::StreamEnd => ReturnCode::Okay,
        ReturnCode::NeedDict => ReturnCode::DataError,
        ReturnCode::BufError => if residual != 0 {
            ReturnCode::DataError
        } else {
            ReturnCode::BufError
        },
        _ => err,
    }
}

/// The unused space that counts against a stalled codec. A probe that the
/// codec wrote to and then stalled on shows that more output was to come,
/// which counts as space that remained.
pub open spec fn inflate_residual(strm: Stream, err: ReturnCode, probing: bool) -> nat {
    if probing && strm.spec_total_out() != 0 && err == ReturnCode::BufError {
        1 + strm.output.avail as nat
    } else {
        strm.output.left as nat + strm.output.avail as nat
    }
}

/// What the driver returns for a run that left the stream as `strm` and
/// stopped with `err`: the length of the initialized front of the
/// destination, none when probing, and the status.
pub open spec fn spec_inflate_result(strm: Stream, err: ReturnCode, probing: bool) -> (
    nat,
    ReturnCode,
) {
    (
        if probing {
            0
        } else {
            strm.spec_total_out()
        },
        inflate_status(err, inflate_residual(strm, err, probing)),
    )
}

/// Whether `r` and `out` are what the driver gives for `config`, the
/// destination `dest` and `source` when the codec `T` did `run`.
///
/// Both are buffers in memory, and the session was started with `config`.
/// A session that does not start is reported as it is, with nothing
/// written. Otherwise the steps are a complete run over `source` into the
/// target, made by the codec from the state that the start gave; the
/// session was ended in the state that the last step left; the result is
/// that of the stream after the run; and the destination holds what the
/// steps left in it.
pub open spec fn uncompressed<T: ZlibImplementation>(
    config: InflateConfig,
    dest: Seq<u8>,
    source: Seq<u8>,
    run: Session<T::State>,
    r: (usize, ReturnCode),
    out: Seq<u8>,
) -> bool {
    let probing = dest.len() == 0;
    let target = inflate_target(dest);
    &&& source.len() <= usize::MAX
    &&& dest.len() <= usize::MAX
    &&& run.states.len() == run.steps.len() + 1
    &&& T::inflate_started(config, run.states[0], run.init)
    &&& if run.init != ReturnCode::Okay {
        &&& run.steps.len() == 0
        &&& r == (0usize, run.init)
        &&& out == dest
    } else {
        &&& stopped(source, target, false, run.steps)
        &&& codec_run::<T>(false, run.states, run.steps)
        &&& T::inflate_ended(run.states.last(), run.end)
        &&& (r.0 as nat, r.1) == spec_inflate_result(
            replay(source.len(), target.len(), run.steps),
            run.steps.last().step.code,
            probing,
        )
        &&& out == if probing {
            dest
        } else {
            destination(dest, source.len(), run.steps)
        }
    }
}

/// Computes what the driver returns once the steps have stopped with `err`
/// and left the stream as `strm`.
pub fn inflate_result(strm: &Stream, err: ReturnCode, probing: bool) -> (r: (usize, ReturnCode))
    ensures
        (r.0 as nat, r.1) == spec_inflate_result(*strm, err, probing),
        r.1 != ReturnCode::StreamEnd && r.1 != ReturnCode::NeedDict,
        r.1 == ReturnCode::Okay <==> err == ReturnCode::StreamEnd || err == ReturnCode::Okay,
        probing ==> r.0 == 0,
{
    let total: usize = strm.total_out();
    let length: usize = if probing {
        0
    } else {
        total
    };
    let left: u64 = if probing && total != 0 && err == ReturnCode::BufError {
        1
    } else {
        strm.output.left
    };
    let code = match err {
        ReturnCode::StreamEnd => ReturnCode::Okay,
        ReturnCode::NeedDict => ReturnCode::DataError,
        ReturnCode::BufError => if left != 0 || strm.output.avail != 0 {
            ReturnCode::DataError
        } else {
            ReturnCode::BufError
        },
        _ => err,
    };
    (length, code)
}

/// Steps a decompression session over `input` into `target` until the codec
/// reports something other than [`ReturnCode::Okay`], and gives the stream
/// as the last step left it together with that report.
fn inflate_steps<T: ZlibImplementation>(state: &mut T::State, target: &mut [u8], input: &[u8]) -> (r:
    (Stream, ReturnCode))
    ensures
        final(target)@.len() == old(target)@.len(),
        exists|states: Seq<T::State>, steps: Seq<StepRecord>|
            {
                &&& #[trigger] codec_run::<T>(false, states, steps)
                &&& states[0] == *old(state)
                &&& states.last() == *final(state)
                &&& stopped(input@, old(target)@, false, steps)
                &&& r.0 == replay(input@.len(), old(target)@.len(), steps)
                &&& r.1 == steps.last().step.code
                &&& final(target)@ == destination(old(target)@, input@.len(), steps)
            },
{
    let source_len: usize = input.len();
    let space: usize = target.len();
    let mut strm = Stream::bind(source_len, space);
    let mut err = ReturnCode::Okay;
    let ghost dest = target@;
    let ghost mut steps: Seq<StepRecord> = Seq::empty();
    let ghost mut states: Seq<T::State> = seq![*state];
    loop
        invariant_except_break
            all_okay(steps),
        invariant
            input@.len() == source_len,
            target@.len() == space,
            dest.len() == space,
            driven(input@, dest, false, steps),
            codec_run::<T>(false, states, steps),
            states[0] == *old(state),
            states.last() == *state,
            strm == replay(source_len as nat, space as nat, steps),
            strm.covers(source_len as nat, space as nat),
            target@ == destination(dest, source_len as nat, steps),
        ensures
            stopped(input@, dest, false, steps),
            err == steps.last().step.code,
        decreases strm.input.left + strm.input.avail + strm.output.left + strm.output.avail,
    {
        strm.refill();
        let ghost found = strm;
        let ghost prior = target@;
        let chunk = &input[strm.input.next..strm.input.next + strm.input.avail as usize];
        let (_, rest) = target.split_at_mut(strm.output.next);
        let (window, _) = rest.split_at_mut(strm.output.avail as usize);
        let ghost handed_window = window@;
        let step = T::inflate(state, chunk, window, Flush::NoFlush);
        let ghost rec = StepRecord {
            input: chunk@,
            space: handed_window,
            flush: Flush::NoFlush,
            window: window@,
            step,
        };
        strm.advance(step);
        proof {
            let run = steps.push(rec);
            assert(run.drop_last() == steps);
            assert(rec.space == prior.subrange(
                found.output.next as int,
                found.output.next + found.output.avail,
            ));
            steps = run;
            states = states.push(*state);
        }
        if step.code != ReturnCode::Okay {
            err = step.code;
            break ;
        }
    }
    (strm, err)
}

/// Decompresses `input` into the front of `output` with the codec `T`, and
/// gives the length of that front together with the status.
///
/// The destination is never resized. Where it has no capacity, the codec is
/// driven into a stand-in of one byte and nothing is returned but the
/// status. A session that does not start is reported as it is: no step is
/// made and the session is not ended. A session that started is ended
/// whatever its steps reported, and what its end reports is left aside.
pub fn uncompress_slice<T: ZlibImplementation>(
    output: &mut [u8],
    input: &[u8],
    config: InflateConfig,
) -> (r: (usize, ReturnCode))
    ensures
        final(output)@.len() == old(output)@.len(),
        r.0 <= old(output)@.len(),
        exists|run: Session<T::State>| #[trigger]
            uncompressed::<T>(config, old(output)@, input@, run, r, final(output)@),
{
    let dest_len: usize = output.len();
    let ghost dest = output@;
    assert(input@.len() == input.len() && dest.len() == output.len());
    let (mut state, init) = T::inflate_init(config);
    let ghost started = state;
    if init != ReturnCode::Okay {
        proof {
            let run = Session::<T::State> {
                init,
                states: seq![started],
                steps: Seq::empty(),
                end: ReturnCode::Okay,
            };
            assert(uncompressed::<T>(config, dest, input@, run, (0usize, init), output@));
        }
        return (0, init);
    }
    let probing: bool = dest_len == 0;
    let (strm, err) = if probing {
        let mut probe: Vec<u8> = vec![1u8];
        assert(probe@ == inflate_target(dest));
        inflate_steps::<T>(&mut state, probe.as_mut_slice(), input)
    } else {
        inflate_steps::<T>(&mut state, output, input)
    };
    let r = inflate_result(&strm, err, probing);
    let ghost stepped = state;
    let end = T::inflate_end(state);
    proof {
        let target = inflate_target(dest);
        let (states, steps) = choose|states: Seq<T::State>, steps: Seq<StepRecord>|
            {
                &&& #[trigger] codec_run::<T>(false, states, steps)
                &&& states[0] == started
                &&& states.last() == stepped
                &&& stopped(input@, target, false, steps)
                &&& strm == replay(input@.len(), target.len(), steps)
                &&& err == steps.last().step.code
                &&& !probing ==> output@ == destination(dest, input@.len(), steps)
            };
        let run = Session::<T::State> { init, states, steps, end };
        assert(uncompressed::<T>(config, dest, input@, run, r, output@));
        lemma_uncompressed_length::<T>(config, dest, input@, run, r, output@);
    }
    r
}

/// The driver never reports more bytes than the destination holds and
/// never resizes it; a probe reports no bytes and leaves the destination as
/// it was.
pub proof fn lemma_uncompressed_length<T: ZlibImplementation>(
    config: InflateConfig,
    dest: Seq<u8>,
    source: Seq<u8>,
    run: Session<T::State>,
    r: (usize, ReturnCode),
    out: Seq<u8>,
)
    requires
        uncompressed::<T>(config, dest, source, run, r, out),
    ensures
        r.0 <= dest.len(),
        out.len() == dest.len(),
        dest.len() == 0 ==> r.0 == 0 && out == dest,
        run.init != ReturnCode::Okay ==> r.0 == 0 && out == dest,
{
    if run.init == ReturnCode::Okay {
        lemma_run_covers(source, inflate_target(dest), false, run.steps);
    }
}

/// The reported front of the destination is what the steps of the codec
/// produced, each byte once and in order.
pub proof fn lemma_uncompressed_is_produced<T: ZlibImplementation>(
    config: InflateConfig,
    dest: Seq<u8>,
    source: Seq<u8>,
    run: Session<T::State>,
    r: (usize, ReturnCode),
    out: Seq<u8>,
)
    requires
        dest.len() > 0,
        run.init == ReturnCode::Okay,
        uncompressed::<T>(config, dest, source, run, r, out),
    ensures
        out.subrange(0, r.0 as int) == produced_bytes(run.steps),
{
    lemma_destination_is_produced(source, dest, false, run.steps);
}

/// The status of a session that started is normalised: the end of the
/// stream is reported as success and nothing else is, and a request for a
/// dictionary is reported as bad data.
pub proof fn lemma_uncompressed_status<T: ZlibImplementation>(
    config: InflateConfig,
    dest: Seq<u8>,
    source: Seq<u8>,
    run: Session<T::State>,
    r: (usize, ReturnCode),
    out: Seq<u8>,
)
    requires
        run.init == ReturnCode::Okay,
        uncompressed::<T>(config, dest, source, run, r, out),
    ensures
        r.1 != ReturnCode::StreamEnd,
        r.1 != ReturnCode::NeedDict,
        r.1 == ReturnCode::Okay <==> run.steps.last().step.code == ReturnCode::StreamEnd,
        run.steps.last().step.code == ReturnCode::NeedDict ==> r.1 == ReturnCode::DataError,
{
}

/// A codec that stalls is reported as fed a stream that is cut short, unless
/// the destination is full: then, and only then, the stall itself is
/// reported. A probe never reports a stall.
pub proof fn lemma_stall_is_data_error<T: ZlibImplementation>(
    config: InflateConfig,
    dest: Seq<u8>,
    source: Seq<u8>,
    run: Session<T::State>,
    r: (usize, ReturnCode),
    out: Seq<u8>,
)
    requires
        run.init == ReturnCode::Okay,
        uncompressed::<T>(config, dest, source, run, r, out),
    ensures
        run.steps.last().step.code == ReturnCode::BufError ==> (r.1 == ReturnCode::DataError <==> dest.len()
            == 0 || r.0 < dest.len()),
        r.1 == ReturnCode::BufError <==> run.steps.last().step.code == ReturnCode::BufError
            && dest.len() > 0 && r.0 == dest.len(),
{
    lemma_run_covers(source, inflate_target(dest), false, run.steps);
}

} // verus!
