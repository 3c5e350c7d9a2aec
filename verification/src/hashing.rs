//! Salted identity hashing: the one-way mapping from a natural identifier (a
//! national ID number, or an opaque external subject) to the stored lookup
//! hash, rendered as lowercase hexadecimal text.

use vstd::prelude::*;
use vstd::string::*;
use sha2::{Digest, Sha256};

verus! {

/// The SHA-256 digest of the UTF-8 bytes of a character sequence. The digest
/// depends on the input alone, so it may be named without being written out.
pub uninterp spec fn sha256_of(data: Seq<char>) -> Seq<u8>;

/// Relies on sha2::Sha256 (Digest::new / update / finalize): the 32-byte
/// digest of the input bytes, a function of the input alone.
#[verifier::external_body]
fn sha256_digest(data: &str) -> (r: Vec<u8>)
    ensures
        r@ == sha256_of(data@),
        r@.len() == 32,
{
    let mut c = Sha256::new();
    c.update(data.as_bytes());
    c.finalize().to_vec()
}

/// Relies on String::from_utf8: bytes below 128 are ASCII, hence valid UTF-8,
/// and decode to the characters with the same code points.
#[verifier::external_body]
fn ascii_bytes_to_string(b: Vec<u8>) -> (r: String)
    requires
        forall|i: int| 0 <= i < b@.len() ==> b@[i] < 128,
    ensures
        r@.len() == b@.len(),
        forall|i: int| 0 <= i < b@.len() ==> (r@[i] as u32) == (b@[i] as u32),
{
    String::from_utf8(b).expect("ASCII bytes are valid UTF-8")
}

/// The lowercase hexadecimal digit for a value below 16.
pub open spec fn hex_digit(v: int) -> char {
    if v == 0 { '0' }
    else if v == 1 { '1' }
    else if v == 2 { '2' }
    else if v == 3 { '3' }
    else if v == 4 { '4' }
    else if v == 5 { '5' }
    else if v == 6 { '6' }
    else if v == 7 { '7' }
    else if v == 8 { '8' }
    else if v == 9 { '9' }
    else if v == 10 { 'a' }
    else if v == 11 { 'b' }
    else if v == 12 { 'c' }
    else if v == 13 { 'd' }
    else if v == 14 { 'e' }
    else { 'f' }
}

/// Two lowercase hexadecimal characters for every byte, high nibble first.
pub open spec fn hex_of_bytes(bs: Seq<u8>) -> Seq<char>
    decreases bs.len(),
{
    if bs.len() == 0 {
        Seq::empty()
    } else {
        hex_of_bytes(bs.drop_last()) + seq![
            hex_digit(bs.last() as int / 16),
            hex_digit(bs.last() as int % 16),
        ]
    }
}

/// Hexadecimal text is twice as long as the bytes it renders.
pub proof fn lemma_hex_of_bytes_len(bs: Seq<u8>)
    ensures
        hex_of_bytes(bs).len() == 2 * bs.len(),
    decreases bs.len(),
{
    if bs.len() > 0 {
        lemma_hex_of_bytes_len(bs.drop_last());
    }
}

/// What the salted identity hash of an input is: the digest of the input with
/// the salt appended, written as lowercase hexadecimal text.
pub open spec fn identity_hash_spec(input: Seq<char>, salt: Seq<char>) -> Seq<char> {
    hex_of_bytes(sha256_of(input + salt))
}

fn hex_digit_char(v: u8) -> (c: char)
    requires
        v < 16,
    ensures
        c == hex_digit(v as int),
{
    if v == 0 { '0' }
    else if v == 1 { '1' }
    else if v == 2 { '2' }
    else if v == 3 { '3' }
    else if v == 4 { '4' }
    else if v == 5 { '5' }
    else if v == 6 { '6' }
    else if v == 7 { '7' }
    else if v == 8 { '8' }
    else if v == 9 { '9' }
    else if v == 10 { 'a' }
    else if v == 11 { 'b' }
    else if v == 12 { 'c' }
    else if v == 13 { 'd' }
    else if v == 14 { 'e' }
    else { 'f' }
}

/// Render a byte sequence as lowercase hexadecimal text.
pub fn bytes_to_hex(bytes: &Vec<u8>) -> (r: String)
    ensures
        r@ == hex_of_bytes(bytes@),
{
    let mut out: Vec<u8> = Vec::new();
    let mut i: usize = 0;
    proof {
        assert(bytes@.subrange(0, 0) =~= Seq::<u8>::empty());
    }
    while i < bytes.len()
        invariant
            i <= bytes@.len(),
            out@.len() == 2 * i,
            out@.len() == hex_of_bytes(bytes@.subrange(0, i as int)).len(),
            forall|j: int| 0 <= j < out@.len() ==> out@[j] < 128,
            forall|j: int| 0 <= j < out@.len() ==> (out@[j] as u32)
                == (hex_of_bytes(bytes@.subrange(0, i as int))[j] as u32),
        decreases bytes@.len() - i,
    {
        let b = bytes[i];
        let hi = hex_digit_char(b / 16);
        let lo = hex_digit_char(b % 16);
        out.push(char_to_ascii(hi));
        out.push(char_to_ascii(lo));
        proof {
            let sub = bytes@.subrange(0, i as int);
            let sub1 = bytes@.subrange(0, i + 1);
            assert(sub1.drop_last() =~= sub);
            assert(sub1.last() == bytes@[i as int]);
            assert(hex_of_bytes(sub1) == hex_of_bytes(sub) + seq![
                hex_digit(bytes@[i as int] as int / 16),
                hex_digit(bytes@[i as int] as int % 16),
            ]);
        }
        i = i + 1;
    }
    proof {
        assert(bytes@.subrange(0, bytes@.len() as int) =~= bytes@);
        lemma_hex_of_bytes_len(bytes@);
    }
    let s = ascii_bytes_to_string(out);
    proof {
        let expected = hex_of_bytes(bytes@);
        assert forall|j: int| 0 <= j < s@.len() implies s@[j] == expected[j] by {
            assert((s@[j] as u32) == (out@[j] as u32));
            assert((out@[j] as u32) == (expected[j] as u32));
            vstd::utf8::char_u32_cast(s@[j], s@[j] as u32);
            vstd::utf8::char_u32_cast(expected[j], expected[j] as u32);
        }
        assert(s@ =~= expected);
    }
    s
}

fn char_to_ascii(c: char) -> (b: u8)
    requires
        (c as u32) < 128,
    ensures
        (b as u32) == (c as u32),
        b < 128,
{
    c as u8
}

/// The salted one-way hash: SHA-256 of the input with the salt appended,
/// rendered as lowercase hexadecimal. Deterministic: the result is a function
/// of the input and the salt alone.
pub fn identity_hash(input: &str, salt: &str) -> (r: String)
    ensures
        r@ == identity_hash_spec(input@, salt@),
{
    let mut joined = String::from_str(input);
    joined.append(salt);
    let digest = sha256_digest(joined.as_str());
    bytes_to_hex(&digest)
}

/// Hash the sensitive natural identifier of a customer for storage or lookup.
pub fn hash_ssn(input: &str, salt: &str) -> (r: String)
    ensures
        r@ == identity_hash_spec(input@, salt@),
{
    identity_hash(input, salt)
}

/// Derive the surrogate key of a user from its external identifier.
pub fn gen_user_id(input: &str, salt: &str) -> (r: String)
    ensures
        r@ == identity_hash_spec(input@, salt@),
{
    identity_hash(input, salt)
}

/// The identity hash is a pure function: identical input and salt give an
/// identical hash, on every call and in every process.
pub proof fn lemma_identity_hash_deterministic(
    input1: Seq<char>,
    salt1: Seq<char>,
    input2: Seq<char>,
    salt2: Seq<char>,
)
    requires
        input1 == input2,
        salt1 == salt2,
    ensures
        identity_hash_spec(input1, salt1) == identity_hash_spec(input2, salt2),
{
}

} // verus!
