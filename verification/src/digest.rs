//! The fingerprint by which a program image is looked up: its SHA-1 digest
//! in lowercase hexadecimal.

use crate::text::push_char;
use sha1::Digest;
use vstd::prelude::*;

verus! {

/// The SHA-1 digest of `data`, as the `sha1` crate computes it.
pub uninterp spec fn sha1_of(data: Seq<u8>) -> Seq<u8>;

/// `Digest::digest` of `sha1::Sha1`: hashes `data` in one go. The contract
/// names the digest and says that it has 20 bytes, the output size that the
/// crate declares for SHA-1.
#[verifier::external_body]
pub(crate) fn sha1_bytes(data: &Vec<u8>) -> (digest: Vec<u8>)
    ensures
        digest@ == sha1_of(data@),
        digest@.len() == 20,
{
    sha1::Sha1::digest(data).to_vec()
}

/// The lowercase hexadecimal digit for a value below 16.
pub open spec fn hex_char(nibble: u8) -> char {
    match nibble {
        0 => '0',
        1 => '1',
        2 => '2',
        3 => '3',
        4 => '4',
        5 => '5',
        6 => '6',
        7 => '7',
        8 => '8',
        9 => '9',
        10 => 'a',
        11 => 'b',
        12 => 'c',
        13 => 'd',
        14 => 'e',
        _ => 'f',
    }
}

/// Bytes in lowercase hexadecimal, two digits per byte, the high one first.
pub open spec fn hex_text(bytes: Seq<u8>) -> Seq<char> {
    Seq::new(
        2 * bytes.len(),
        |k: int|
            if k % 2 == 0 {
                hex_char(bytes[k / 2] / 16)
            } else {
                hex_char(bytes[k / 2] % 16)
            },
    )
}

/// The lowercase hexadecimal digit for `nibble`.
pub fn hex_digit(nibble: u8) -> (c: char)
    requires
        nibble < 16,
    ensures
        c == hex_char(nibble),
{
    match nibble {
        0 => '0',
        1 => '1',
        2 => '2',
        3 => '3',
        4 => '4',
        5 => '5',
        6 => '6',
        7 => '7',
        8 => '8',
        9 => '9',
        10 => 'a',
        11 => 'b',
        12 => 'c',
        13 => 'd',
        14 => 'e',
        _ => 'f',
    }
}

/// Writes bytes out in lowercase hexadecimal.
pub fn to_hex(bytes: &Vec<u8>) -> (text: String)
    ensures
        text@ == hex_text(bytes@),
{
    let mut text = String::new();
    let mut i: usize = 0;
    while i < bytes.len()
        invariant
            i <= bytes.len(),
            text@.len() == 2 * i,
            forall|k: int| 0 <= k < 2 * i ==> text@[k] == hex_text(bytes@)[k],
        decreases bytes.len() - i,
    {
        let byte = bytes[i];
        push_char(&mut text, hex_digit(byte / 16));
        push_char(&mut text, hex_digit(byte % 16));
        i += 1;
    }
    assert(text@ =~= hex_text(bytes@));
    text
}

} // verus!
