//! Digests: the SHA-256 of a file's bytes, its hexadecimal text, and the
//! comparison of a recorded digest with a computed one.

use crate::text::{chars_of, digit_char};
use vstd::prelude::*;

verus! {

/// The number of bytes in a digest.
pub const DIGEST_BYTES: usize = 32;

/// The number of hexadecimal digits in the text of a digest.
pub const DIGEST_HEX_LEN: usize = 64;

/// The SHA-256 digest of `data`, as the `sha2` crate computes it.
pub uninterp spec fn sha256(data: Seq<u8>) -> Seq<u8>;

/// The lower-case hexadecimal digit for a value below sixteen.
pub open spec fn hex_digit(n: nat) -> char {
    if n < 10 {
        digit_char(n)
    } else if n == 10 {
        'a'
    } else if n == 11 {
        'b'
    } else if n == 12 {
        'c'
    } else if n == 13 {
        'd'
    } else if n == 14 {
        'e'
    } else {
        'f'
    }
}

/// The hexadecimal text of `data`: two lower-case digits for each byte, the
/// high half first.
pub open spec fn hex_encode(data: Seq<u8>) -> Seq<char> {
    Seq::new(
        2 * data.len(),
        |i: int|
            if i % 2 == 0 {
                hex_digit((data[i / 2] / 16) as nat)
            } else {
                hex_digit((data[i / 2] % 16) as nat)
            },
    )
}

/// The text of the digest of `data`.
pub open spec fn digest_text(data: Seq<u8>) -> Seq<char> {
    hex_encode(sha256(data))
}

/// What reading a file gave, as mathematical values: the bytes, or the cause
/// of the failure.
pub open spec fn read_view(read: Result<Vec<u8>, String>) -> Result<Seq<u8>, Seq<char>> {
    match read {
        Ok(bytes) => Ok(bytes@),
        Err(cause) => Err(cause@),
    }
}

/// A text or the cause for which there is none, as mathematical values.
pub open spec fn text_view(computed: Result<String, String>) -> Result<Seq<char>, Seq<char>> {
    match computed {
        Ok(text) => Ok(text@),
        Err(cause) => Err(cause@),
    }
}

/// The digest's text for what reading a file gave: the text of the digest of
/// the bytes, or the cause of the failure, unchanged.
pub open spec fn digested(read: Result<Seq<u8>, Seq<char>>) -> Result<Seq<char>, Seq<char>> {
    match read {
        Ok(bytes) => Ok(digest_text(bytes)),
        Err(cause) => Err(cause),
    }
}

/// Whether `c` is a hexadecimal digit, in either case.
pub open spec fn is_hex_digit(c: char) -> bool {
    let n = c as u32;
    ||| 0x30 <= n <= 0x39
    ||| 0x41 <= n <= 0x46
    ||| 0x61 <= n <= 0x66
}

/// Whether `c` is a hexadecimal digit that is no upper-case letter.
pub open spec fn is_lower_hex_digit(c: char) -> bool {
    let n = c as u32;
    ||| 0x30 <= n <= 0x39
    ||| 0x61 <= n <= 0x66
}

/// Whether `s` has the length and the alphabet of a digest's text.
pub open spec fn is_digest(s: Seq<char>) -> bool {
    &&& s.len() == DIGEST_HEX_LEN
    &&& forall|i: int| 0 <= i < s.len() ==> is_hex_digit(#[trigger] s[i])
}

/// Whether `s` is a digest's text as this library writes it: in lower case.
pub open spec fn is_lower_digest(s: Seq<char>) -> bool {
    &&& s.len() == DIGEST_HEX_LEN
    &&& forall|i: int| 0 <= i < s.len() ==> is_lower_hex_digit(#[trigger] s[i])
}

/// `c` with the upper-case hexadecimal letters turned to lower case, and every
/// other character left as it is.
pub open spec fn fold_hex(c: char) -> char {
    if c == 'A' {
        'a'
    } else if c == 'B' {
        'b'
    } else if c == 'C' {
        'c'
    } else if c == 'D' {
        'd'
    } else if c == 'E' {
        'e'
    } else if c == 'F' {
        'f'
    } else {
        c
    }
}

/// Whether two digest texts are the same but for the case of their
/// hexadecimal letters.
pub open spec fn same_digest(a: Seq<char>, b: Seq<char>) -> bool {
    &&& a.len() == b.len()
    &&& forall|i: int| 0 <= i < a.len() ==> fold_hex(#[trigger] a[i]) == fold_hex(b[i])
}

/// The hexadecimal text of a digest of the right size is a digest text in
/// lower case.
pub proof fn lemma_hex_encode_is_digest(data: Seq<u8>)
    requires
        data.len() == DIGEST_BYTES,
    ensures
        is_lower_digest(hex_encode(data)),
        is_digest(hex_encode(data)),
{
    let s = hex_encode(data);
    assert forall|i: int| 0 <= i < s.len() implies is_lower_hex_digit(#[trigger] s[i])
        && is_hex_digit(s[i]) by {
        let b = data[i / 2];
        lemma_hex_digit_is_lower((b / 16) as nat);
        lemma_hex_digit_is_lower((b % 16) as nat);
    }
}

/// Each hexadecimal digit that `hex_digit` gives is one in lower case.
pub proof fn lemma_hex_digit_is_lower(n: nat)
    requires
        n < 16,
    ensures
        is_lower_hex_digit(hex_digit(n)),
        is_hex_digit(hex_digit(n)),
        fold_hex(hex_digit(n)) == hex_digit(n),
{
}

/// `sha2::Sha256::digest`: the SHA-256 digest of `data`. Its value is taken
/// on trust under the name `sha256`; its length is the output size that the
/// crate declares for this hash.
#[verifier::external_body]
fn sha256_bytes(data: &[u8]) -> (d: Vec<u8>)
    ensures
        d@ == sha256(data@),
        d@.len() == DIGEST_BYTES,
{
    <sha2::Sha256 as sha2::Digest>::digest(data).to_vec()
}

/// `hex::encode`: two lower-case hexadecimal digits for each byte of `data`,
/// the high half first. Taken on trust.
#[verifier::external_body]
fn hex_string(data: &[u8]) -> (s: String)
    ensures
        s@ == hex_encode(data@),
{
    hex::encode(data)
}

/// The text of the SHA-256 digest of `data`.
pub fn digest_hex(data: &[u8]) -> (s: String)
    ensures
        s@ == digest_text(data@),
        is_lower_digest(s@),
        is_digest(s@),
{
    let d = sha256_bytes(data);
    proof {
        lemma_hex_encode_is_digest(d@);
    }
    hex_string(d.as_slice())
}

/// The digest's text for what reading a file gave: the text of the digest of
/// the bytes that were read, or the cause of the failure.
pub fn digest_of_read(read: &Result<Vec<u8>, String>) -> (computed: Result<String, String>)
    ensures
        text_view(computed) == digested(read_view(*read)),
        computed matches Ok(text) ==> is_lower_digest(text@),
{
    match read {
        Ok(bytes) => Ok(digest_hex(bytes.as_slice())),
        Err(cause) => Err(cause.clone()),
    }
}

/// Whether `c` is a hexadecimal digit.
pub fn is_hex_digit_char(c: char) -> (r: bool)
    ensures
        r == is_hex_digit(c),
{
    let n: u32 = c as u32;
    (0x30 <= n && n <= 0x39) || (0x41 <= n && n <= 0x46) || (0x61 <= n && n <= 0x66)
}

/// `c` with an upper-case hexadecimal letter turned to lower case.
pub fn fold_hex_char(c: char) -> (r: char)
    ensures
        r == fold_hex(c),
{
    if c == 'A' {
        'a'
    } else if c == 'B' {
        'b'
    } else if c == 'C' {
        'c'
    } else if c == 'D' {
        'd'
    } else if c == 'E' {
        'e'
    } else if c == 'F' {
        'f'
    } else {
        c
    }
}

/// Whether `chars[lo..hi]` has the length and the alphabet of a digest's text.
pub fn is_digest_range(chars: &Vec<char>, lo: usize, hi: usize) -> (r: bool)
    requires
        lo <= hi <= chars.len(),
    ensures
        r == is_digest(chars@.subrange(lo as int, hi as int)),
{
    let ghost s = chars@.subrange(lo as int, hi as int);
    if hi - lo != DIGEST_HEX_LEN {
        return false;
    }
    let mut i: usize = lo;
    while i < hi
        invariant
            lo <= i <= hi <= chars.len(),
            s == chars@.subrange(lo as int, hi as int),
            forall|j: int| 0 <= j < i - lo ==> is_hex_digit(#[trigger] s[j]),
        decreases hi - i,
    {
        if !is_hex_digit_char(chars[i]) {
            assert(!is_hex_digit(s[i - lo]));
            return false;
        }
        i += 1;
    }
    true
}

/// Whether a recorded digest and a computed one are the same but for the case
/// of their hexadecimal letters.
pub fn digests_match(recorded: &str, computed: &str) -> (r: bool)
    ensures
        r == same_digest(recorded@, computed@),
{
    let a = chars_of(recorded);
    let b = chars_of(computed);
    if a.len() != b.len() {
        return false;
    }
    let mut i: usize = 0;
    while i < a.len()
        invariant
            i <= a.len() == b.len(),
            a@ == recorded@,
            b@ == computed@,
            forall|j: int| 0 <= j < i ==> fold_hex(#[trigger] a@[j]) == fold_hex(b@[j]),
        decreases a.len() - i,
    {
        if fold_hex_char(a[i]) != fold_hex_char(b[i]) {
            assert(fold_hex(a@[i as int]) != fold_hex(b@[i as int]));
            return false;
        }
        i += 1;
    }
    true
}

} // verus!
