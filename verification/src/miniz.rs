//! A backend that runs miniz_oxide over whole buffers, in one call each way.
//!
//! miniz_oxide is not stepped: it is handed the whole source and the whole
//! destination at once. Nothing is proved of what it computes. Its results
//! are named, and the contracts here say what becomes of a named result.

use vstd::prelude::*;
use crate::code::ReturnCode;
use crate::config::{DeflateConfig, InflateConfig};
use miniz_oxide::inflate::TINFLStatus;

verus! {

/// How a decompression by miniz_oxide ended.
#[derive(Debug, Clone, Copy, PartialEq, Eq, Structural)]
pub enum InflateStatus {
    /// The input ended before the stream did.
    FailedCannotMakeProgress,
    /// The output buffer or the position in it is not one to write to.
    BadParam,
    /// The data was decompressed, but its checksum is not the one stored.
    Adler32Mismatch,
    /// The data is not a valid stream.
    Failed,
    /// The end of the stream was reached.
    Done,
    /// More input is needed to go on.
    NeedsMoreInput,
    /// The output buffer is full and more is to come.
    HasMoreOutput,
    /// A status that this library does not know.
    Unknown,
}

/// How a compression by miniz_oxide ended.
#[derive(Debug, Clone, Copy, PartialEq, Eq, Structural)]
pub enum DeflateStatus {
    /// The compressor was used after an error or after the end.
    BadParam,
    /// The output could not be put into the buffer.
    PutBufFailed,
    /// Compression went well and the stream is still open.
    Okay,
    /// Compression went well and the stream was ended.
    Done,
}

/// What `miniz_oxide::inflate::core::decompress` gives for a decompressor
/// in its initial state: the status, the count of bytes written, and the
/// output buffer after the call.
pub uninterp spec fn tinfl_decompress(input: Seq<u8>, out: Seq<u8>, out_pos: nat, flags: u32) -> (
    InflateStatus,
    nat,
    Seq<u8>,
);

/// What `miniz_oxide::deflate::core::create_comp_flags_from_zip_params`
/// gives.
pub uninterp spec fn comp_flags(level: i32, window_bits: i32, strategy: i32) -> u32;

/// What `miniz_oxide::deflate::core::compress` gives for a compressor newly
/// made with `flags` and asked to finish: the status, the count of bytes
/// written, and the output buffer after the call.
pub uninterp spec fn tdefl_compress(flags: u32, input: Seq<u8>, out: Seq<u8>) -> (
    DeflateStatus,
    nat,
    Seq<u8>,
);

/// `TINFL_FLAG_PARSE_ZLIB_HEADER` of miniz_oxide, which its source defines
/// as 1.
#[verifier::external_body]
fn flag_parse_zlib_header() -> (flag: u32)
    ensures
        flag == 1,
{
    miniz_oxide::inflate::core::inflate_flags::TINFL_FLAG_PARSE_ZLIB_HEADER
}

/// `TINFL_FLAG_USING_NON_WRAPPING_OUTPUT_BUF` of miniz_oxide, which its
/// source defines as 4.
#[verifier::external_body]
fn flag_non_wrapping_output() -> (flag: u32)
    ensures
        flag == 4,
{
    miniz_oxide::inflate::core::inflate_flags::TINFL_FLAG_USING_NON_WRAPPING_OUTPUT_BUF
}

/// Calls `miniz_oxide::inflate::core::decompress` with a decompressor in
/// its initial state, to write from `out_pos` on. The contract claims that
/// what comes back depends on the arguments alone, that the count of bytes
/// written does not exceed the room from `out_pos` on, and that the buffer
/// keeps its length. An `out_pos` beyond the buffer is left out.
#[verifier::external_body]
fn decompress(input: &[u8], output: &mut [u8], out_pos: usize, flags: u32) -> (r: (
    InflateStatus,
    usize,
))
    requires
        out_pos <= old(output)@.len(),
    ensures
        (r.0, r.1 as nat, final(output)@) == tinfl_decompress(
            input@,
            old(output)@,
            out_pos as nat,
            flags,
        ),
        r.1 <= old(output)@.len() - out_pos,
        final(output)@.len() == old(output)@.len(),
{
    let mut decomp = Box::<miniz_oxide::inflate::core::DecompressorOxide>::default();
    let r = miniz_oxide::inflate::core::decompress(&mut decomp, input, output, out_pos, flags);
    let status = match r.0 {
        TINFLStatus::FailedCannotMakeProgress => InflateStatus::FailedCannotMakeProgress,
        TINFLStatus::BadParam => InflateStatus::BadParam,
        TINFLStatus::Adler32Mismatch => InflateStatus::Adler32Mismatch,
        TINFLStatus::Failed => InflateStatus::Failed,
        TINFLStatus::Done => InflateStatus::Done,
        TINFLStatus::NeedsMoreInput => InflateStatus::NeedsMoreInput,
        TINFLStatus::HasMoreOutput => InflateStatus::HasMoreOutput,
        _ => InflateStatus::Unknown,
    };
    (status, r.2)
}

/// `miniz_oxide::deflate::core::create_comp_flags_from_zip_params` turns a
/// level, window bits and a strategy, as zlib knows them, into the flags of
/// a compressor. The contract claims only that the flags depend on the
/// arguments alone.
pub assume_specification[ miniz_oxide::deflate::core::create_comp_flags_from_zip_params ](
    level: i32,
    window_bits: i32,
    strategy: i32,
) -> (flags: u32)
    ensures
        flags == comp_flags(level, window_bits, strategy),
;

/// Calls `miniz_oxide::deflate::core::compress` once, with a compressor
/// newly made by `CompressorOxide::new(flags)` and the flush mode
/// `TDEFLFlush::Finish`. The contract claims that what comes back depends
/// on the arguments alone, that the count of bytes written does not exceed
/// the buffer, and that the buffer keeps its length.
#[verifier::external_body]
fn compress(flags: u32, input: &[u8], output: &mut [u8]) -> (r: (DeflateStatus, usize))
    ensures
        (r.0, r.1 as nat, final(output)@) == tdefl_compress(flags, input@, old(output)@),
        r.1 <= old(output)@.len(),
        final(output)@.len() == old(output)@.len(),
{
    let mut compressor = miniz_oxide::deflate::core::CompressorOxide::new(flags);
    let flush = miniz_oxide::deflate::core::TDEFLFlush::Finish;
    let r = miniz_oxide::deflate::core::compress(&mut compressor, input, output, flush);
    let status = match r.0 {
        miniz_oxide::deflate::core::TDEFLStatus::BadParam => DeflateStatus::BadParam,
        miniz_oxide::deflate::core::TDEFLStatus::PutBufFailed => DeflateStatus::PutBufFailed,
        miniz_oxide::deflate::core::TDEFLStatus::Okay => DeflateStatus::Okay,
        miniz_oxide::deflate::core::TDEFLStatus::Done => DeflateStatus::Done,
    };
    (status, r.2)
}

/// The flags that a decompression is run with: the source is a zlib stream,
/// and the destination is one buffer that takes all of the output.
pub open spec fn inflate_flags() -> u32 {
    5
}

/// What a decompression that ended with `status` after writing `written`
/// bytes comes to: the written front of the destination with success where
/// the end of the stream was reached, and the status itself where not.
pub open spec fn spec_inflate_outcome(status: InflateStatus, written: nat) -> Result<
    (usize, ReturnCode),
    InflateStatus,
> {
    if status == InflateStatus::Done {
        Ok((written as usize, ReturnCode::Okay))
    } else {
        Err(status)
    }
}

/// What a compression that ended with `status` after writing `written`
/// bytes comes to: the written front of the destination with success where
/// the stream was ended, and the status itself where not.
pub open spec fn spec_deflate_outcome(status: DeflateStatus, written: nat) -> Result<
    (usize, ReturnCode),
    DeflateStatus,
> {
    if status == DeflateStatus::Done {
        Ok((written as usize, ReturnCode::Okay))
    } else {
        Err(status)
    }
}

/// Decides what a decompression comes to from how miniz_oxide ended it.
pub fn inflate_outcome(status: InflateStatus, written: usize) -> (r: Result<
    (usize, ReturnCode),
    InflateStatus,
>)
    ensures
        r == spec_inflate_outcome(status, written as nat),
{
    match status {
        InflateStatus::Done => Ok((written, ReturnCode::Okay)),
        _ => Err(status),
    }
}

/// Decides what a compression comes to from how miniz_oxide ended it.
pub fn deflate_outcome(status: DeflateStatus, written: usize) -> (r: Result<
    (usize, ReturnCode),
    DeflateStatus,
>)
    ensures
        r == spec_deflate_outcome(status, written as nat),
{
    match status {
        DeflateStatus::Done => Ok((written, ReturnCode::Okay)),
        _ => Err(status),
    }
}

/// The backend that hands whole buffers to miniz_oxide.
pub struct MinizOxide;

impl MinizOxide {
    /// Decompresses the zlib stream `input` into the front of `output` in
    /// one call of miniz_oxide, and gives the length of that front with
    /// success, or the status of a call that did not reach the end of the
    /// stream. `output` has to take all of the output at once.
    pub fn uncompress_slice(output: &mut [u8], input: &[u8], _config: InflateConfig) -> (r: Result<
        (usize, ReturnCode),
        InflateStatus,
    >)
        ensures
            final(output)@ == tinfl_decompress(input@, old(output)@, 0, inflate_flags()).2,
            r == spec_inflate_outcome(
                tinfl_decompress(input@, old(output)@, 0, inflate_flags()).0,
                tinfl_decompress(input@, old(output)@, 0, inflate_flags()).1,
            ),
            final(output)@.len() == old(output)@.len(),
            r matches Ok(done) ==> done.0 <= old(output)@.len() && done.1 == ReturnCode::Okay,
    {
        let flags: u32 = flag_parse_zlib_header() | flag_non_wrapping_output();
        assert(flags == inflate_flags()) by (bit_vector)
            requires
                flags == 1u32 | 4u32,
        ;
        let (status, written) = decompress(input, output, 0, flags);
        inflate_outcome(status, written)
    }

    /// Compresses `input` into the front of `output` in one call of
    /// miniz_oxide, and gives the length of that front with success, or the
    /// status of a call that did not end the stream. `output` has to take
    /// all of the output at once.
    pub fn compress_slice(output: &mut [u8], input: &[u8], config: DeflateConfig) -> (r: Result<
        (usize, ReturnCode),
        DeflateStatus,
    >)
        ensures
            final(output)@ == tdefl_compress(
                comp_flags(config.level, config.window_bits, config.strategy.spec_raw() as i32),
                input@,
                old(output)@,
            ).2,
            r == spec_deflate_outcome(
                tdefl_compress(
                    comp_flags(config.level, config.window_bits, config.strategy.spec_raw() as i32),
                    input@,
                    old(output)@,
                ).0,
                tdefl_compress(
                    comp_flags(config.level, config.window_bits, config.strategy.spec_raw() as i32),
                    input@,
                    old(output)@,
                ).1,
            ),
            final(output)@.len() == old(output)@.len(),
            r matches Ok(done) ==> done.0 <= old(output)@.len() && done.1 == ReturnCode::Okay,
    {
        let flags: u32 = miniz_oxide::deflate::core::create_comp_flags_from_zip_params(
            config.level,
            config.window_bits,
            config.strategy.raw(),
        );
        let (status, written) = compress(flags, input, output);
        deflate_outcome(status, written)
    }
}

} // verus!
