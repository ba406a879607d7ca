//! A chunked, buffer-bounded driver for zlib-style stream codecs.
//!
//! A codec is driven through repeated bounded steps: each step is handed at
//! most `u32::MAX` bytes of input and of output space, whatever the size of
//! the buffers, and every byte it reports is accounted for exactly once.
//!
//! - [`code`] holds the taxonomy of outcomes, [`config`] what a codec is
//!   configured with.
//! - [`codec`] is the interface that a backend provides, [`stream`] the
//!   bookkeeping of one session.
//! - [`inflate`] and [`deflate`] are the two drivers. What they promise is
//!   stated over the runs of [`run`]; [`round_trip`] says what they come to
//!   together.
//! - [`miniz`] is a backend that is not stepped.

pub mod code;
pub mod codec;
pub mod config;
pub mod deflate;
pub mod inflate;
pub mod miniz;
pub mod round_trip;
pub mod run;
pub mod stream;

pub use code::ReturnCode;
pub use codec::ZlibImplementation;
pub use config::{DeflateConfig, Flush, InflateConfig, Method, Strategy};
pub use deflate::compress_slice;
pub use inflate::uncompress_slice;
pub use miniz::MinizOxide;
pub use stream::Step;
