//! The PNG container front-end: locate the Exif chunk in a PNG byte
//! stream and hand its raw payload to the TIFF parser.
//!
//! The scan is specified by the recursive `spec_png_scan`; the
//! executable extractor is proved to return exactly its outcome.

use vstd::prelude::*;
use crate::endian::{spec_u32, loadu32};
use crate::error::Error;

verus! {

/// Whether `b` starts with the fixed 8-byte PNG signature.
pub open spec fn spec_is_png(b: Seq<u8>) -> bool {
    b.len() >= 8 && b[0] == 0x89 && b[1] == 0x50 && b[2] == 0x4e && b[3] == 0x47 && b[4] == 0x0d
        && b[5] == 0x0a && b[6] == 0x1a && b[7] == 0x0a
}

/// Whether the four chunk-type bytes at `pos` spell the Exif chunk type.
pub open spec fn spec_is_exif_chunk(d: Seq<u8>, pos: int) -> bool {
    d[pos] == 0x65 && d[pos + 1] == 0x58 && d[pos + 2] == 0x49 && d[pos + 3] == 0x66
}

/// The outcome of scanning the chunk series from `pos`: the payload of
/// the first Exif chunk, or the fault.
///
/// Reaching end-of-input exactly at a chunk boundary means the stream
/// holds no Exif chunk; running out of bytes inside a chunk header or
/// inside the Exif payload is a broken container.  A chunk that is not
/// the Exif chunk is skipped: its payload and its 4-byte checksum.
pub open spec fn spec_png_scan(d: Seq<u8>, pos: int) -> Result<Seq<u8>, Error>
    recommends
        0 <= pos <= d.len(),
    decreases d.len() - pos,
{
    if pos < 0 || pos >= d.len() {
        Err(Error::ExifNotFound)
    } else if d.len() - pos < 8 {
        Err(Error::BrokenPng)
    } else {
        let len = spec_u32(d, false, pos);
        if spec_is_exif_chunk(d, pos + 4) {
            if d.len() - (pos + 8) < len {
                Err(Error::BrokenPng)
            } else {
                Ok(d.subrange(pos + 8, pos + 8 + len))
            }
        } else {
            if len + 4 > usize::MAX {
                Err(Error::InvalidChunkLength)
            } else if d.len() - (pos + 8) < len + 4 {
                Err(Error::BrokenPng)
            } else {
                spec_png_scan(d, pos + 12 + len)
            }
        }
    }
}

/// The outcome of extracting the Exif chunk payload from a whole PNG
/// stream: the signature must be present and correct, then the chunk
/// series is scanned.
pub open spec fn spec_get_exif_attr(d: Seq<u8>) -> Result<Seq<u8>, Error> {
    if d.len() < 8 {
        Err(Error::BrokenPng)
    } else if !spec_is_png(d) {
        Err(Error::NotPng)
    } else {
        spec_png_scan(d, 8)
    }
}

/// Does the buffer start with the PNG signature?
pub fn is_png(buf: &[u8]) -> (r: bool)
    ensures
        r == spec_is_png(buf@),
{
    buf.len() >= 8 && buf[0] == 0x89 && buf[1] == 0x50 && buf[2] == 0x4e && buf[3] == 0x47
        && buf[4] == 0x0d && buf[5] == 0x0a && buf[6] == 0x1a && buf[7] == 0x0a
}

/// Get the contents of the Exif chunk from a PNG stream, exactly as
/// `spec_get_exif_attr` states.
///
/// The trailing 4-byte checksum of the Exif chunk is never read or
/// validated; a stream that ends before the signature or inside a chunk
/// header is a broken container, distinct from a well-formed stream
/// that simply holds no Exif chunk.
pub fn get_exif_attr(data: &[u8]) -> (r: Result<Vec<u8>, Error>)
    ensures
        ({
            let s = spec_get_exif_attr(data@);
            match (r, s) {
                (Ok(v), Ok(sv)) => v@ == sv,
                (Err(e), Err(se)) => e == se,
                _ => false,
            }
        }),
{
    let ghost d = data@;
    let dlen: usize = data.len();
    if dlen < 8 {
        return Err(Error::BrokenPng);
    }
    if !is_png(data) {
        return Err(Error::NotPng);
    }
    let mut pos: usize = 8;
    loop
        invariant
            data@ == d,
            dlen == d.len(),
            spec_is_png(d),
            8 <= pos <= dlen,
            spec_get_exif_attr(d) == spec_png_scan(d, pos as int),
        decreases dlen - pos,
    {
        if pos == dlen {
            return Err(Error::ExifNotFound);
        }
        if dlen - pos < 8 {
            return Err(Error::BrokenPng);
        }
        let len = loadu32(data, pos, false) as usize;
        if data[pos + 4] == 0x65 && data[pos + 5] == 0x58 && data[pos + 6] == 0x49 && data[pos + 7]
            == 0x66 {
            if dlen - (pos + 8) < len {
                return Err(Error::BrokenPng);
            }
            let mut v: Vec<u8> = Vec::new();
            let start = pos + 8;
            for i in 0..len
                invariant
                    data@ == d,
                    dlen == d.len(),
                    start + len <= dlen,
                    v@ =~= d.subrange(start as int, start + i),
            {
                v.push(data[start + i]);
            }
            proof {
                assert(v@ =~= d.subrange(pos + 8int, pos + 8 + len as int));
            }
            return Ok(v);
        }
        let skip = match len.checked_add(4) {
            None => {
                return Err(Error::InvalidChunkLength);
            },
            Some(x) => x,
        };
        if dlen - (pos + 8) < skip {
            return Err(Error::BrokenPng);
        }
        pos = pos + 8 + skip;
    }
}

/// Skipping law: a chunk that is not the Exif chunk moves the scan
/// forward by exactly its 8-byte header, its payload length, and its
/// 4-byte checksum, changing nothing else about the outcome.
pub proof fn lemma_png_skip(d: Seq<u8>, pos: int)
    requires
        0 <= pos,
        pos + 8 <= d.len(),
        !spec_is_exif_chunk(d, pos + 4),
        spec_u32(d, false, pos) + 4 <= usize::MAX,
        pos + 12 + spec_u32(d, false, pos) <= d.len(),
    ensures
        spec_png_scan(d, pos) == spec_png_scan(d, pos + 12 + spec_u32(d, false, pos)),
{
}

/// Signature gate: a stream that does not begin with the full PNG
/// signature never reaches chunk scanning.  A stream shorter than the
/// signature is a broken container; one of sufficient length with the
/// wrong bytes is not a PNG at all.
pub proof fn lemma_png_signature_gate(d: Seq<u8>)
    requires
        !spec_is_png(d),
    ensures
        spec_get_exif_attr(d) == if d.len() < 8 {
            Err::<Seq<u8>, Error>(Error::BrokenPng)
        } else {
            Err::<Seq<u8>, Error>(Error::NotPng)
        },
{
}

} // verus!
