//! Configuration values handed to a codec, and the flush modes of a step.

use vstd::prelude::*;

verus! {

/// Configuration of a decompression session.
#[derive(Debug, Clone, Copy, Hash, PartialEq, Eq, Structural)]
pub struct InflateConfig {
    /// Selects the window size and the format variant.
    pub window_bits: i32,
}

/// The compression method.
#[derive(Debug, Clone, Copy, PartialEq, Eq, Hash, Structural)]
pub enum Method {
    Deflated,
}

impl Method {
    /// The raw integer that codecs know the method by.
    pub open spec fn spec_raw(self) -> int {
        8
    }

    /// The raw integer that codecs know the method by.
    pub fn raw(self) -> (value: i32)
        ensures
            value == self.spec_raw(),
    {
        8
    }
}

impl Default for Method {
    fn default() -> (method: Method)
        ensures
            method == Method::Deflated,
    {
        Method::Deflated
    }
}

/// The compression strategy.
#[derive(Debug, Clone, Copy, PartialEq, Eq, Hash, PartialOrd, Ord, Structural)]
pub enum Strategy {
    Default,
    Filtered,
    HuffmanOnly,
    Rle,
    Fixed,
}

impl Strategy {
    /// The raw integer that codecs know the strategy by.
    pub open spec fn spec_raw(self) -> int {
        match self {
            Strategy::Default => 0,
            Strategy::Filtered => 1,
            Strategy::HuffmanOnly => 2,
            Strategy::Rle => 3,
            Strategy::Fixed => 4,
        }
    }

    /// The raw integer that codecs know the strategy by.
    pub fn raw(self) -> (value: i32)
        ensures
            value == self.spec_raw(),
    {
        match self {
            Strategy::Default => 0,
            Strategy::Filtered => 1,
            Strategy::HuffmanOnly => 2,
            Strategy::Rle => 3,
            Strategy::Fixed => 4,
        }
    }
}

impl Default for Strategy {
    fn default() -> (strategy: Strategy)
        ensures
            strategy == Strategy::Default,
    {
        Strategy::Default
    }
}

/// Configuration of a compression session.
#[derive(Debug, Clone, Copy, PartialEq, Eq, Hash, Structural)]
pub struct DeflateConfig {
    /// Compression level; which levels exist is up to the backend.
    pub level: i32,
    pub method: Method,
    /// Selects the window size and the container framing.
    pub window_bits: i32,
    pub mem_level: i32,
    pub strategy: Strategy,
}

/// How much of its pending output a codec step must emit.
#[derive(Debug, Clone, Copy, PartialEq, Eq, Structural)]
pub enum Flush {
    NoFlush,
    PartialFlush,
    SyncFlush,
    FullFlush,
    Finish,
    Block,
    Trees,
}

impl Flush {
    /// The raw integer that codecs know the flush mode by.
    pub open spec fn spec_raw(self) -> int {
        match self {
            Flush::NoFlush => 0,
            Flush::PartialFlush => 1,
            Flush::SyncFlush => 2,
            Flush::FullFlush => 3,
            Flush::Finish => 4,
            Flush::Block => 5,
            Flush::Trees => 6,
        }
    }

    /// The raw integer that codecs know the flush mode by.
    pub fn raw(self) -> (value: i32)
        ensures
            value == self.spec_raw(),
    {
        match self {
            Flush::NoFlush => 0,
            Flush::PartialFlush => 1,
            Flush::SyncFlush => 2,
            Flush::FullFlush => 3,
            Flush::Finish => 4,
            Flush::Block => 5,
            Flush::Trees => 6,
        }
    }
}

impl Default for Flush {
    fn default() -> (flush: Flush)
        ensures
            flush == Flush::NoFlush,
    {
        Flush::NoFlush
    }
}

} // verus!
