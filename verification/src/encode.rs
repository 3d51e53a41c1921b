//! Base64 rendering of byte buffers, with the standard alphabet and
//! padding.

use vstd::prelude::*;
use base64::Engine;

verus! {

/// The standard base64 alphabet, in value order.
pub open spec fn spec_b64_alphabet() -> Seq<char> {
    "ABCDEFGHIJKLMNOPQRSTUVWXYZabcdefghijklmnopqrstuvwxyz0123456789+/"@
}

/// The base64 rendering of a byte sequence with the standard alphabet
/// and `=` padding: each group of three bytes becomes four characters;
/// a trailing group of one or two bytes is padded.
pub open spec fn spec_b64_of(s: Seq<u8>) -> Seq<char>
    decreases s.len(),
{
    let a = spec_b64_alphabet();
    if s.len() == 0 {
        Seq::empty()
    } else if s.len() == 1 {
        seq![a[s[0] as int / 4], a[(s[0] as int % 4) * 16], '=', '=']
    } else if s.len() == 2 {
        seq![a[s[0] as int / 4], a[(s[0] as int % 4) * 16 + s[1] as int / 16], a[(s[1] as int % 16) * 4], '=']
    } else {
        seq![
            a[s[0] as int / 4],
            a[(s[0] as int % 4) * 16 + s[1] as int / 16],
            a[(s[1] as int % 16) * 4 + s[2] as int / 64],
            a[s[2] as int % 64],
        ] + spec_b64_of(s.skip(3))
    }
}

/// Relies on `base64::engine::general_purpose::STANDARD.encode`: the
/// standard-alphabet, padded base64 text of the input.  The length
/// bound keeps the library's output-size computation from overflowing.
#[verifier::external_body]
pub fn base64_encode(data: &[u8]) -> (r: String)
    requires
        (data@.len() + 2) / 3 * 4 <= usize::MAX,
    ensures
        r@ == spec_b64_of(data@),
{
    base64::engine::general_purpose::STANDARD.encode(data)
}

} // verus!
