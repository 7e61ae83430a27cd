//! Digests and encodings of bytes.

use base64ct::Encoding;
use md5::Digest;
use vstd::prelude::*;

use crate::text;

verus! {

/// The MD5 digest of bytes.
pub uninterp spec fn md5_of(bytes: Seq<u8>) -> Seq<u8>;

/// The SHA-1 digest of bytes.
pub uninterp spec fn sha1_of(bytes: Seq<u8>) -> Seq<u8>;

/// The character of a hexadecimal digit, in lower case.
pub open spec fn hex_digit(n: int) -> char {
    if n < 10 {
        text::digit(n)
    } else {
        (n - 10 + 'a' as u8) as char
    }
}

/// Bytes in hexadecimal, two digits each, the high one first.
pub open spec fn hex(bytes: Seq<u8>) -> Seq<char> {
    Seq::new(
        2 * bytes.len(),
        |i: int|
            hex_digit(
                if i % 2 == 0 {
                    bytes[i / 2] as int / 16
                } else {
                    bytes[i / 2] as int % 16
                },
            ),
    )
}

/// The character of a digit of Base64, in its standard alphabet.
pub open spec fn base64_digit(n: int) -> char {
    if n < 26 {
        (n + 'A' as u8) as char
    } else if n < 52 {
        (n - 26 + 'a' as u8) as char
    } else if n < 62 {
        text::digit(n - 52)
    } else if n == 62 {
        '+'
    } else {
        '/'
    }
}

/// Bytes in Base64: each three bytes give four digits, and the last ones are padded with `=`.
pub open spec fn base64(bytes: Seq<u8>) -> Seq<char>
    decreases bytes.len(),
{
    if bytes.len() == 0 {
        Seq::empty()
    } else {
        let b0 = bytes[0] as int;
        let b1 = if bytes.len() > 1 { bytes[1] as int } else { 0 };
        let b2 = if bytes.len() > 2 { bytes[2] as int } else { 0 };
        let d0 = base64_digit(b0 / 4);
        let d1 = base64_digit(b0 % 4 * 16 + b1 / 16);
        let d2 = if bytes.len() > 1 { base64_digit(b1 % 16 * 4 + b2 / 64) } else { '=' };
        let d3 = if bytes.len() > 2 { base64_digit(b2 % 64) } else { '=' };
        if bytes.len() <= 3 {
            seq![d0, d1, d2, d3]
        } else {
            seq![d0, d1, d2, d3] + base64(bytes.skip(3))
        }
    }
}

/// Base64 has four digits for each three bytes, and for those that are left.
pub proof fn lemma_base64_len(bytes: Seq<u8>)
    ensures
        base64(bytes).len() == (bytes.len() + 2) / 3 * 4,
    decreases bytes.len(),
{
    if bytes.len() > 3 {
        lemma_base64_len(bytes.skip(3));
    }
}

/// `md5::Md5` over bytes: the digest that [`md5_of`] names. It has 16 bytes.
#[verifier::external_body]
pub(crate) fn md5_digest(bytes: &[u8]) -> (digest: Vec<u8>)
    ensures
        digest@ == md5_of(bytes@),
        digest@.len() == 16,
{
    md5::Md5::new().chain_update(bytes).finalize().to_vec()
}

/// `sha1::Sha1` over bytes: the digest that [`sha1_of`] names. It has 20 bytes.
#[verifier::external_body]
pub(crate) fn sha1_digest(bytes: &[u8]) -> (digest: Vec<u8>)
    ensures
        digest@ == sha1_of(bytes@),
        digest@.len() == 20,
{
    sha1::Sha1::new().chain_update(bytes).finalize().to_vec()
}

/// `base16ct::lower::encode_string` writes bytes in hexadecimal, in lower case.
#[verifier::external_body]
pub(crate) fn hex_text(bytes: &[u8]) -> (r: String)
    requires
        bytes@.len() <= usize::MAX / 2,
    ensures
        r@ == hex(bytes@),
{
    base16ct::lower::encode_string(bytes)
}

/// `base64ct::Base64::encode_string` writes bytes in Base64, with padding.
#[verifier::external_body]
pub(crate) fn base64_text(bytes: &[u8]) -> (r: String)
    requires
        bytes@.len() <= usize::MAX / 4,
    ensures
        r@ == base64(bytes@),
{
    base64ct::Base64::encode_string(bytes)
}

/// The digits to the base 64 of the number that three bytes make.
proof fn lemma_digits_of_three(a: u32, b: u32, c: u32, n: u32)
    by (bit_vector)
    requires
        a < 256,
        b < 256,
        c < 256,
        n == a * 65536 + b * 256 + c,
    ensures
        n / 262144 == a / 4,
        n / 4096 % 64 == ((a % 4) * 16 + b / 16) as u32,
        n / 64 % 64 == ((b % 16) * 4 + c / 64) as u32,
        n % 64 == c % 64,
{
}

/// Three bytes make one number of 24 bits, whose four digits to the base 64 come first; the digits
/// of the other bytes follow. One or two bytes at the end are filled up with zeros, and `=` stands
/// for the digits that tell nothing of them.
pub proof fn law_base64_in_groups(a: u8, b: u8, c: u8, rest: Seq<u8>)
    ensures
        base64(Seq::empty()) == Seq::<char>::empty(),
        ({
            let n = a * 65536 + b * 256 + c;
            base64(seq![a, b, c] + rest) == seq![
                base64_digit(n / 262144),
                base64_digit(n / 4096 % 64),
                base64_digit(n / 64 % 64),
                base64_digit(n % 64),
            ] + base64(rest)
        }),
        ({
            let n = a * 65536 + b * 256;
            base64(seq![a, b]) == seq![
                base64_digit(n / 262144),
                base64_digit(n / 4096 % 64),
                base64_digit(n / 64 % 64),
                '=',
            ]
        }),
        ({
            let n = a * 65536;
            base64(seq![a]) == seq![
                base64_digit(n / 262144),
                base64_digit(n / 4096 % 64),
                '=',
                '=',
            ]
        }),
{
    lemma_digits_of_three(a as u32, b as u32, c as u32, (a * 65536 + b * 256 + c) as u32);
    lemma_digits_of_three(a as u32, b as u32, 0, (a * 65536 + b * 256) as u32);
    lemma_digits_of_three(a as u32, 0, 0, (a * 65536) as u32);
    let bytes = seq![a, b, c] + rest;
    assert(bytes.skip(3) =~= rest);
    assert(bytes[0] == a && bytes[1] == b && bytes[2] == c);
    if rest.len() == 0 {
        assert(base64(rest) =~= Seq::empty());
    }
}

/// The digits to the base 64 are the capital letters, the small letters, the decimal digits, `+`
/// and `/`, in this order.
pub proof fn law_base64_digits(n: int)
    requires
        0 <= n < 64,
    ensures
        n < 26 ==> base64_digit(n) as int == 'A' as int + n,
        26 <= n < 52 ==> base64_digit(n) as int == 'a' as int + (n - 26),
        52 <= n < 62 ==> base64_digit(n) as int == '0' as int + (n - 52),
        n == 62 ==> base64_digit(n) == '+',
        n == 63 ==> base64_digit(n) == '/',
{
}

/// A byte is told by two hexadecimal digits, which count up from `0` to `9` and from `a` to `f`:
/// the first tells its upper half, the second its lower half.
pub proof fn law_hex_digits(bytes: Seq<u8>, i: int)
    requires
        0 <= i < bytes.len(),
    ensures
        hex(bytes).len() == 2 * bytes.len(),
        ({
            let upper = hex(bytes)[2 * i] as int;
            let lower = hex(bytes)[2 * i + 1] as int;
            let first = if upper <= '9' as int { upper - '0' as int } else { upper - 'a' as int + 10 };
            let second = if lower <= '9' as int { lower - '0' as int } else { lower - 'a' as int + 10 };
            &&& 0 <= first < 16
            &&& 0 <= second < 16
            &&& bytes[i] == 16 * first + second
            &&& '0' <= hex(bytes)[2 * i] && hex(bytes)[2 * i] <= 'f'
            &&& '0' <= hex(bytes)[2 * i + 1] && hex(bytes)[2 * i + 1] <= 'f'
        }),
{
    assert((2 * i) % 2 == 0 && (2 * i) / 2 == i);
    assert((2 * i + 1) % 2 == 1 && (2 * i + 1) / 2 == i);
}

} // verus!
