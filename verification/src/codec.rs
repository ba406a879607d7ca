//! The capability interface that a codec backend provides.

use vstd::prelude::*;
use crate::code::ReturnCode;
use crate::config::{DeflateConfig, Flush, InflateConfig};
use crate::stream::{Step, STEP_MAX};

verus! {

/// Whether a step's report is one that a codec may give when it was handed
/// `input` bytes and `space` bytes of output: it transferred no more than
/// it was handed, and it reports [`ReturnCode::Okay`] only after progress.
pub open spec fn step_fits(step: Step, input: nat, space: nat) -> bool {
    &&& step.consumed <= input
    &&& step.produced <= space
    &&& step.code == ReturnCode::Okay ==> step.consumed + step.produced > 0
}

/// A stream codec that is driven in bounded steps.
///
/// A session is one value of `State`: made by an `init`, advanced by steps,
/// and given up to the matching `end`. A step is handed the next chunk of
/// the source and the next window of the destination, takes bytes from the
/// front of the chunk and writes bytes to the front of the window, and
/// reports how many of each. Neither is ever longer than [`STEP_MAX`].
///
/// The driver relies on each step to stay within what it was handed, to
/// leave the window's length alone, and to report [`ReturnCode::Okay`] only
/// when it consumed or produced something; a step that can do neither
/// reports [`ReturnCode::BufError`].
///
/// What else a codec does is its own to say: each operation comes with a
/// relation between what it is handed and what it may give, which a codec
/// states as far as it wants its callers to know. The drivers hand these
/// relations on. A codec that states none promises nothing more than the
/// above.
pub trait ZlibImplementation {
    /// The state of one session.
    type State;

    /// Whether starting a decompression session with `config` may give
    /// `state` and report `code`.
    open spec fn inflate_started(config: InflateConfig, state: Self::State, code: ReturnCode) -> bool {
        true
    }

    /// Whether a step of a decompression session in state `before`, handed
    /// the chunk `input` and the window `space` and called with `flush`,
    /// may leave the session in state `after` and the window as `window`,
    /// and report `step`.
    open spec fn inflate_stepped(
        before: Self::State,
        input: Seq<u8>,
        space: Seq<u8>,
        flush: Flush,
        after: Self::State,
        window: Seq<u8>,
        step: Step,
    ) -> bool {
        true
    }

    /// Whether ending a decompression session in state `state` may report
    /// `code`.
    open spec fn inflate_ended(state: Self::State, code: ReturnCode) -> bool {
        true
    }

    /// Whether starting a compression session with `config` may give
    /// `state` and report `code`.
    open spec fn deflate_started(config: DeflateConfig, state: Self::State, code: ReturnCode) -> bool {
        true
    }

    /// Whether a step of a compression session in state `before`, handed
    /// the chunk `input` and the window `space` and called with `flush`,
    /// may leave the session in state `after` and the window as `window`,
    /// and report `step`.
    open spec fn deflate_stepped(
        before: Self::State,
        input: Seq<u8>,
        space: Seq<u8>,
        flush: Flush,
        after: Self::State,
        window: Seq<u8>,
        step: Step,
    ) -> bool {
        true
    }

    /// Whether ending a compression session in state `state` may report
    /// `code`.
    open spec fn deflate_ended(state: Self::State, code: ReturnCode) -> bool {
        true
    }

    /// Starts a decompression session.
    fn inflate_init(config: InflateConfig) -> (r: (Self::State, ReturnCode))
        ensures
            Self::inflate_started(config, r.0, r.1),
    ;

    /// Advances a decompression session by one step.
    fn inflate(state: &mut Self::State, input: &[u8], output: &mut [u8], flush: Flush) -> (step: Step)
        requires
            input@.len() <= STEP_MAX,
            old(output)@.len() <= STEP_MAX,
        ensures
            final(output)@.len() == old(output)@.len(),
            step_fits(step, input@.len(), old(output)@.len()),
            Self::inflate_stepped(
                *old(state),
                input@,
                old(output)@,
                flush,
                *final(state),
                final(output)@,
                step,
            ),
    ;

    /// Ends a decompression session.
    fn inflate_end(state: Self::State) -> (code: ReturnCode)
        ensures
            Self::inflate_ended(state, code),
    ;

    /// Starts a compression session.
    fn deflate_init(config: DeflateConfig) -> (r: (Self::State, ReturnCode))
        ensures
            Self::deflate_started(config, r.0, r.1),
    ;

    /// Advances a compression session by one step.
    fn deflate(state: &mut Self::State, input: &[u8], output: &mut [u8], flush: Flush) -> (step: Step)
        requires
            input@.len() <= STEP_MAX,
            old(output)@.len() <= STEP_MAX,
        ensures
            final(output)@.len() == old(output)@.len(),
            step_fits(step, input@.len(), old(output)@.len()),
            Self::deflate_stepped(
                *old(state),
                input@,
                old(output)@,
                flush,
                *final(state),
                final(output)@,
                step,
            ),
    ;

    /// Ends a compression session. Anything but [`ReturnCode::Okay`] says
    /// that the stream was given up before it was complete.
    fn deflate_end(state: Self::State) -> (code: ReturnCode)
        ensures
            Self::deflate_ended(state, code),
    ;
}

} // verus!
