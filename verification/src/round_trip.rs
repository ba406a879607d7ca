//! What the two drivers come to together.
//!
//! Whether a stream decompresses to the source it was compressed from is up
//! to the codec. The drivers add nothing to what the codec does and lose
//! nothing of it: where the codec's two sessions undo each other, the bytes
//! that come back are the bytes that went in.

use vstd::prelude::*;
use crate::code::ReturnCode;
use crate::codec::ZlibImplementation;
use crate::config::{DeflateConfig, InflateConfig};
use crate::deflate::{compressed, lemma_compressed_is_produced};
use crate::inflate::{
    lemma_uncompressed_is_produced,
    lemma_uncompressed_length,
    uncompressed,
};
use crate::run::{consumed_bytes, produced_bytes, Session};

verus! {

/// The codec's part of a round trip: both sessions started, the compression
/// took in all of `source`, the decompression took in all of `stream` and
/// reached its end, and where the decompression took in what the
/// compression gave out, it gave out what the compression took in.
pub open spec fn undoes<S>(
    packing: Session<S>,
    source: Seq<u8>,
    unpacking: Session<S>,
    stream: Seq<u8>,
) -> bool {
    &&& packing.init == ReturnCode::Okay
    &&& unpacking.init == ReturnCode::Okay
    &&& consumed_bytes(packing.steps) == source
    &&& consumed_bytes(unpacking.steps) == stream
    &&& unpacking.steps.last().step.code == ReturnCode::StreamEnd
    &&& consumed_bytes(unpacking.steps) == produced_bytes(packing.steps) ==> produced_bytes(
        unpacking.steps,
    ) == consumed_bytes(packing.steps)
}

/// A round trip gives the source back: where `source` was compressed into
/// the front of `packed_into`, that front was decompressed into
/// `unpacked_into`, and the codec's sessions undo each other, the
/// decompression reports success and the length of `source`, and the front
/// of its destination is `source`.
///
/// A destination without capacity takes part only for an empty `source`:
/// a probe hands back no bytes.
pub proof fn lemma_round_trip<T: ZlibImplementation>(
    source: Seq<u8>,
    pack_config: DeflateConfig,
    pack_into: Seq<u8>,
    packing: Session<T::State>,
    packed: (usize, ReturnCode),
    packed_into: Seq<u8>,
    unpack_config: InflateConfig,
    unpack_into: Seq<u8>,
    unpacking: Session<T::State>,
    unpacked: (usize, ReturnCode),
    unpacked_into: Seq<u8>,
)
    requires
        compressed::<T>(pack_config, pack_into, source, packing, Ok(packed), packed_into),
        uncompressed::<T>(
            unpack_config,
            unpack_into,
            packed_into.subrange(0, packed.0 as int),
            unpacking,
            unpacked,
            unpacked_into,
        ),
        undoes(packing, source, unpacking, packed_into.subrange(0, packed.0 as int)),
        unpack_into.len() > 0 || source.len() == 0,
    ensures
        packed.1 == ReturnCode::Okay,
        unpacked == (source.len() as usize, ReturnCode::Okay),
        unpacked_into.subrange(0, source.len() as int) == source,
{
    let stream = packed_into.subrange(0, packed.0 as int);
    lemma_compressed_is_produced::<T>(pack_config, pack_into, source, packing, Ok(packed), packed_into);
    if unpack_into.len() > 0 {
        lemma_uncompressed_length::<T>(
            unpack_config,
            unpack_into,
            stream,
            unpacking,
            unpacked,
            unpacked_into,
        );
        lemma_uncompressed_is_produced::<T>(
            unpack_config,
            unpack_into,
            stream,
            unpacking,
            unpacked,
            unpacked_into,
        );
    }
}

} // verus!
