//! Content hashing: the SHA-256 digest of a byte buffer, rendered as
//! lowercase hexadecimal text.

use vstd::prelude::*;
use sha2::Digest;
use crate::strutil::push_char;

verus! {

/// The SHA-256 digest of a byte sequence.  The digest is a pure
/// function of the input alone; its definition is not restated here.
pub uninterp spec fn sha256_of(data: Seq<u8>) -> Seq<u8>;

/// Relies on `sha2::Sha256::digest`: the SHA-256 digest of the input,
/// 32 bytes, depending on the input alone.
#[verifier::external_body]
fn sha256_bytes(data: &[u8]) -> (r: Vec<u8>)
    ensures
        r@ == sha256_of(data@),
        r@.len() == 32,
{
    let out = sha2::Sha256::digest(data);
    out.as_slice().to_vec()
}

/// The character of one hexadecimal digit, lowercase.
pub open spec fn spec_hex_char(dd: int) -> char {
    if dd == 0 {
        '0'
    } else if dd == 1 {
        '1'
    } else if dd == 2 {
        '2'
    } else if dd == 3 {
        '3'
    } else if dd == 4 {
        '4'
    } else if dd == 5 {
        '5'
    } else if dd == 6 {
        '6'
    } else if dd == 7 {
        '7'
    } else if dd == 8 {
        '8'
    } else if dd == 9 {
        '9'
    } else if dd == 10 {
        'a'
    } else if dd == 11 {
        'b'
    } else if dd == 12 {
        'c'
    } else if dd == 13 {
        'd'
    } else if dd == 14 {
        'e'
    } else {
        'f'
    }
}

/// The lowercase hexadecimal rendering of a byte sequence: two digits
/// per byte, high nibble first.
pub open spec fn spec_to_hex(s: Seq<u8>) -> Seq<char> {
    Seq::new(
        2 * s.len(),
        |i: int|
            if i % 2 == 0 {
                spec_hex_char(s[i / 2] as int / 16)
            } else {
                spec_hex_char(s[i / 2] as int % 16)
            },
    )
}

/// The character of one hexadecimal digit, lowercase.
pub fn hex_char(dd: u8) -> (r: char)
    requires
        dd < 16,
    ensures
        r == spec_hex_char(dd as int),
{
    if dd == 0 {
        '0'
    } else if dd == 1 {
        '1'
    } else if dd == 2 {
        '2'
    } else if dd == 3 {
        '3'
    } else if dd == 4 {
        '4'
    } else if dd == 5 {
        '5'
    } else if dd == 6 {
        '6'
    } else if dd == 7 {
        '7'
    } else if dd == 8 {
        '8'
    } else if dd == 9 {
        '9'
    } else if dd == 10 {
        'a'
    } else if dd == 11 {
        'b'
    } else if dd == 12 {
        'c'
    } else if dd == 13 {
        'd'
    } else if dd == 14 {
        'e'
    } else {
        'f'
    }
}

/// Render a byte buffer as lowercase hexadecimal text.
pub fn to_hex(data: &[u8]) -> (r: String)
    ensures
        r@ == spec_to_hex(data@),
{
    let mut s = String::new();
    let n = data.len();
    for i in 0..n
        invariant
            n == data@.len(),
            s@.len() == 2 * i,
            forall|j: int| 0 <= j < 2 * i ==> s@[j] == spec_to_hex(data@)[j],
    {
        let b = data[i];
        push_char(&mut s, hex_char(b / 16));
        push_char(&mut s, hex_char(b % 16));
    }
    proof {
        assert(s@ =~= spec_to_hex(data@));
    }
    s
}

/// Utilities over content hashes.
pub struct FileHashUtils;

impl FileHashUtils {
    /// The SHA-256 digest of `data`, as lowercase hexadecimal text.
    pub fn sha256_hex(data: &[u8]) -> (r: String)
        ensures
            r@ == spec_to_hex(sha256_of(data@)),
            r@.len() == 64,
    {
        let digest = sha256_bytes(data);
        let hex = to_hex(digest.as_slice());
        proof {
            assert(spec_to_hex(sha256_of(data@)).len() == 64);
        }
        hex
    }
}

} // verus!
