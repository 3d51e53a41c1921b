//! Verified extraction of TIFF-formatted metadata directories from raw
//! Exif streams and PNG containers: byte-order detection, bounded walking
//! of the directory chain, typed entry decoding, and recovery from
//! truncated or adversarial input.

pub mod datetime;
pub mod encode;
pub mod endian;
pub mod error;
pub mod gps;
pub mod json;
pub mod hash;
pub mod png;
pub mod strutil;
pub mod tags;
pub mod tiff;
pub mod tuples;
pub mod value;

use vstd::prelude::*;

verus! {

} // verus!
