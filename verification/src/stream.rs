//! Cursor bookkeeping of one codec session.
//!
//! A codec counts what it may transfer in one step in 32 bits, while the
//! buffers it works on may be larger. A [`Cursor`] splits one buffer into
//! chunks that fit, and a [`Stream`] pairs the cursor of the source with the
//! cursor of the destination.

use vstd::prelude::*;
use crate::code::ReturnCode;

verus! {

/// The most that one codec step may be handed on either side.
pub const STEP_MAX: u32 = 0xffff_ffff;

/// What one codec step reports.
#[derive(Debug, Clone, Copy, PartialEq, Eq, Structural)]
pub struct Step {
    /// Bytes taken from the front of the input chunk.
    pub consumed: u32,
    /// Bytes written to the front of the output window.
    pub produced: u32,
    /// Outcome of the step.
    pub code: ReturnCode,
}

/// One side, input or output, of a codec session over a buffer.
#[derive(Debug, Clone, Copy, PartialEq, Eq, Structural)]
pub struct Cursor {
    /// Offset in the buffer of the first byte not yet transferred.
    pub next: usize,
    /// Bytes that the codec may still transfer in the current step.
    pub avail: u32,
    /// Bytes of the buffer not yet handed out to any step.
    pub left: u64,
}

impl Cursor {
    /// The cursor accounts for a buffer of `len` bytes: what was
    /// transferred, what is handed out and what is left add up to `len`.
    pub open spec fn covers(self, len: nat) -> bool {
        self.next + self.avail + self.left == len
    }

    /// A cursor at the start of a buffer of `len` bytes.
    pub open spec fn spec_bind(len: nat) -> Cursor {
        Cursor { next: 0, avail: 0, left: len as u64 }
    }

    /// The size of the chunk that a refill hands out of `left` bytes.
    pub open spec fn chunk(left: nat) -> nat {
        if left <= STEP_MAX {
            left
        } else {
            STEP_MAX as nat
        }
    }

    /// The cursor after a refill: a used-up chunk is replaced by the next
    /// one, a chunk in use stays.
    pub open spec fn spec_refill(self) -> Cursor {
        if self.avail == 0 {
            Cursor {
                next: self.next,
                avail: Self::chunk(self.left as nat) as u32,
                left: (self.left - Self::chunk(self.left as nat)) as u64,
            }
        } else {
            self
        }
    }

    /// The cursor after a step transferred `n` bytes.
    pub open spec fn spec_advance(self, n: nat) -> Cursor {
        Cursor { next: (self.next + n) as usize, avail: (self.avail - n) as u32, left: self.left }
    }

    /// Binds the cursor to the start of a buffer of `len` bytes, with nothing
    /// handed out yet.
    pub fn bind(len: usize) -> (cursor: Cursor)
        ensures
            cursor == Self::spec_bind(len as nat),
            cursor.covers(len as nat),
    {
        Cursor { next: 0, avail: 0, left: len as u64 }
    }

    /// Hands out the next chunk, of at most [`STEP_MAX`] bytes, when the
    /// current one is used up.
    pub fn refill(&mut self)
        ensures
            *final(self) == old(self).spec_refill(),
            forall|len: nat| old(self).covers(len) ==> final(self).covers(len),
    {
        if self.avail == 0 {
            let chunk: u32 = if self.left <= STEP_MAX as u64 {
                self.left as u32
            } else {
                STEP_MAX
            };
            self.avail = chunk;
            self.left = self.left - chunk as u64;
        }
    }

    /// Accounts for `n` bytes that a step transferred out of the chunk
    /// that it was handed.
    pub fn advance(&mut self, n: u32)
        requires
            n <= old(self).avail,
            old(self).next + old(self).avail <= usize::MAX,
        ensures
            *final(self) == old(self).spec_advance(n as nat),
            forall|len: nat| old(self).covers(len) ==> final(self).covers(len),
    {
        self.next = self.next + n as usize;
        self.avail = self.avail - n;
    }
}

/// The cursors of one codec session: over the source and over the
/// destination.
#[derive(Debug, Clone, Copy, PartialEq, Eq, Structural)]
pub struct Stream {
    pub input: Cursor,
    pub output: Cursor,
}

impl Stream {
    /// Both cursors account for their buffers.
    pub open spec fn covers(self, source_len: nat, space: nat) -> bool {
        self.input.covers(source_len) && self.output.covers(space)
    }

    /// A stream at the start of a source of `source_len` bytes and of a
    /// destination of `space` bytes.
    pub open spec fn spec_bind(source_len: nat, space: nat) -> Stream {
        Stream { input: Cursor::spec_bind(source_len), output: Cursor::spec_bind(space) }
    }

    /// The stream after both sides were refilled.
    pub open spec fn spec_refill(self) -> Stream {
        Stream { input: self.input.spec_refill(), output: self.output.spec_refill() }
    }

    /// Whether `step` stays within what the stream has handed out.
    pub open spec fn admits(self, step: Step) -> bool {
        step.consumed <= self.input.avail && step.produced <= self.output.avail
    }

    /// The stream after a step reported `step`.
    pub open spec fn spec_advance(self, step: Step) -> Stream {
        Stream {
            input: self.input.spec_advance(step.consumed as nat),
            output: self.output.spec_advance(step.produced as nat),
        }
    }

    /// The bytes of output that the steps so far have produced.
    pub open spec fn spec_total_out(self) -> nat {
        self.output.next as nat
    }

    /// Binds the input cursor to a source of `source_len` bytes and the
    /// output cursor to a destination of `space` bytes.
    pub fn bind(source_len: usize, space: usize) -> (strm: Stream)
        ensures
            strm == Self::spec_bind(source_len as nat, space as nat),
            strm.covers(source_len as nat, space as nat),
    {
        Stream { input: Cursor::bind(source_len), output: Cursor::bind(space) }
    }

    /// Refills whichever side has used up its chunk.
    pub fn refill(&mut self)
        ensures
            *final(self) == old(self).spec_refill(),
            forall|source_len: nat, space: nat|
                old(self).covers(source_len, space) ==> final(self).covers(source_len, space),
    {
        self.output.refill();
        self.input.refill();
    }

    /// Accounts for what one step consumed and produced out of what it was
    /// handed.
    pub fn advance(&mut self, step: Step)
        requires
            old(self).admits(step),
            old(self).input.next + old(self).input.avail <= usize::MAX,
            old(self).output.next + old(self).output.avail <= usize::MAX,
        ensures
            *final(self) == old(self).spec_advance(step),
            forall|source_len: nat, space: nat|
                old(self).covers(source_len, space) ==> final(self).covers(source_len, space),
            final(self).spec_total_out() == old(self).spec_total_out() + step.produced,
    {
        self.input.advance(step.consumed);
        self.output.advance(step.produced);
    }

    /// The bytes of output that the steps so far have produced.
    pub fn total_out(&self) -> (total: usize)
        ensures
            total == self.spec_total_out(),
    {
        self.output.next
    }
}

} // verus!
