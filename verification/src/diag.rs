//! Diagnostics for undecodable account data: an exact hex preview.

use vstd::prelude::*;

verus! {

/// Longest prefix, in bytes, of an undecodable account shown in diagnostics.
pub const PREVIEW_BYTES: usize = 64;

/// The lowercase hexadecimal digit of a value below sixteen.
pub open spec fn hex_digit(v: nat) -> char {
    if v < 10 {
        ((0x30 + v) as u8) as char
    } else {
        ((0x57 + v) as u8) as char
    }
}

/// The lowercase hexadecimal rendering of a byte string: two digits per
/// byte, high nibble first.
pub open spec fn hex_render(bytes: Seq<u8>) -> Seq<char> {
    Seq::new(
        2 * bytes.len(),
        |i: int|
            if i % 2 == 0 {
                hex_digit((bytes[i / 2] / 16) as nat)
            } else {
                hex_digit((bytes[i / 2] % 16) as nat)
            },
    )
}

/// The diagnostic preview of raw bytes: the hex rendering of the first
/// `PREVIEW_BYTES` bytes, or of all of them when the data is shorter.
pub open spec fn preview_spec(data: Seq<u8>) -> Seq<char> {
    hex_render(
        data.take(
            if data.len() < PREVIEW_BYTES {
                data.len() as int
            } else {
                PREVIEW_BYTES as int
            },
        ),
    )
}

/// Relies on hex::encode: the lowercase hexadecimal of the input, two digits
/// per byte, high nibble first.
#[verifier::external_body]
fn hex_encode(bytes: &Vec<u8>) -> (r: String)
    ensures
        r@ == hex_render(bytes@),
{
    hex::encode(bytes)
}

/// The diagnostic preview of account data that failed to decode: lowercase
/// hex of the first `PREVIEW_BYTES` bytes.
pub fn data_preview(data: &Vec<u8>) -> (r: String)
    ensures
        r@ == preview_spec(data@),
{
    let end = if data.len() < PREVIEW_BYTES {
        data.len()
    } else {
        PREVIEW_BYTES
    };
    let mut head: Vec<u8> = Vec::new();
    let mut i: usize = 0;
    while i < end
        invariant
            i <= end,
            end <= data@.len(),
            head@ == data@.take(i as int),
        decreases end - i,
    {
        let b = data[i];
        head.push(b);
        proof {
            assert(head@ =~= data@.take(i + 1));
        }
        i = i + 1;
    }
    hex_encode(&head)
}

} // verus!
