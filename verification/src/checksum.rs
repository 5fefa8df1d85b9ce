//! MD5 checksums of downloaded files, as lowercase hexadecimal text.

use vstd::prelude::*;

verus! {

/// The lowercase hexadecimal digit for `d` (below sixteen).
pub open spec fn hex_digit(d: nat) -> char {
    if d < 10 {
        (48 + d) as char
    } else {
        (87 + d) as char
    }
}

/// `bytes` in lowercase hexadecimal, two digits per byte, high digit first
/// (as `{:x}` writes a digest).
pub open spec fn lower_hex(bytes: Seq<u8>) -> Seq<char>
    decreases bytes.len(),
{
    if bytes.len() == 0 {
        Seq::empty()
    } else {
        lower_hex(bytes.drop_last()).push(hex_digit((bytes.last() / 16) as nat)).push(
            hex_digit((bytes.last() % 16) as nat),
        )
    }
}

fn hex_char(d: u8) -> (c: char)
    requires
        d < 16,
    ensures
        c == hex_digit(d as nat),
{
    if d < 10 {
        (48u8 + d) as char
    } else {
        (87u8 + d) as char
    }
}

/// `bytes` in lowercase hexadecimal.
pub fn to_lower_hex(bytes: &[u8]) -> (r: String)
    ensures
        r@ == lower_hex(bytes@),
{
    let mut r = String::new();
    let mut i: usize = 0;
    while i < bytes.len()
        invariant
            i <= bytes@.len(),
            r@ == lower_hex(bytes@.take(i as int)),
        decreases bytes.len() - i,
    {
        let b = bytes[i];
        assert(bytes@.take(i + 1).drop_last() == bytes@.take(i as int));
        r.push(hex_char(b / 16));
        r.push(hex_char(b % 16));
        i += 1;
    }
    assert(bytes@.take(bytes@.len() as int) == bytes@);
    r
}

/// The sixteen-byte MD5 digest of `data`, as the md-5 crate computes it.
pub uninterp spec fn md5_digest(data: Seq<u8>) -> Seq<u8>;

/// Calls `md5::Md5::digest(data)` (the `Digest` trait of the md-5 crate); the
/// claim is that the result is `md5_digest(data)`, sixteen bytes long.
#[verifier::external_body]
fn md5_of(data: &[u8]) -> (d: Vec<u8>)
    ensures
        d@ == md5_digest(data@),
        d@.len() == 16,
{
    <md5::Md5 as md5::Digest>::digest(data).to_vec()
}

/// The MD5 checksum of `data` in lowercase hexadecimal, the form in which the
/// manifest gives it.
pub fn md5_hex(data: &[u8]) -> (s: String)
    ensures
        s@ == lower_hex(md5_digest(data@)),
        s@.len() == 32,
{
    let d = md5_of(data);
    proof {
        law_hex_length(d@);
    }
    to_lower_hex(d.as_slice())
}

/// The hexadecimal text has two digits per byte.
pub proof fn law_hex_length(bytes: Seq<u8>)
    ensures
        lower_hex(bytes).len() == 2 * bytes.len(),
    decreases bytes.len(),
{
    if bytes.len() > 0 {
        law_hex_length(bytes.drop_last());
    }
}

/// Each byte becomes two lowercase hexadecimal digits in place: its high
/// half at position `2i` and its low half at `2i + 1`, each one of `0`-`9`,
/// `a`-`f`.
pub proof fn law_hex_digits_in_place(bytes: Seq<u8>, i: int)
    requires
        0 <= i < bytes.len(),
    ensures
        lower_hex(bytes).len() == 2 * bytes.len(),
        lower_hex(bytes)[2 * i] == hex_digit((bytes[i] / 16) as nat),
        lower_hex(bytes)[2 * i + 1] == hex_digit((bytes[i] % 16) as nat),
        ('0' <= lower_hex(bytes)[2 * i] <= '9') || ('a' <= lower_hex(bytes)[2 * i] <= 'f'),
        ('0' <= lower_hex(bytes)[2 * i + 1] <= '9') || ('a' <= lower_hex(bytes)[2 * i + 1] <= 'f'),
    decreases bytes.len(),
{
    law_hex_length(bytes);
    law_hex_length(bytes.drop_last());
    if i < bytes.len() - 1 {
        law_hex_digits_in_place(bytes.drop_last(), i);
        assert(bytes.drop_last()[i] == bytes[i]);
    }
}

} // verus!
