//! Secret digests and content addressing.
//!
//! A device secret is stored only as its SHA-256 digest, printed as
//! lower-case hex. The same digest, taken over `relative_path + file_name`,
//! is the ledger's addressing key: a pure function of the logical path, not
//! of the file bytes.

use sha2::Digest;
use vstd::prelude::*;
use vstd::string::*;

verus! {

/// The SHA-256 digest of the UTF-8 encoding of a character sequence, as the
/// `sha2` crate computes it. The digest depends on the input alone.
pub uninterp spec fn sha256_of(data: Seq<char>) -> Seq<u8>;

/// Relies on `sha2::Sha256`: the digest is 32 bytes long and is a function
/// of the hashed bytes alone.
#[verifier::external_body]
fn sha256_digest(data: &str) -> (digest: Vec<u8>)
    ensures
        digest@ == sha256_of(data@),
        digest@.len() == 32,
{
    sha2::Sha256::digest(data.as_bytes()).to_vec()
}

/// Relies on std's `String::push`: appends one character.
#[verifier::external_body]
fn push_char(s: &mut String, c: char)
    ensures
        final(s)@ == old(s)@.push(c),
{
    s.push(c);
}

/// The lower-case hexadecimal digit for a value below sixteen.
pub open spec fn spec_hex_digit(v: u8) -> char
    recommends
        v < 16,
{
    if v == 0 {
        '0'
    } else if v == 1 {
        '1'
    } else if v == 2 {
        '2'
    } else if v == 3 {
        '3'
    } else if v == 4 {
        '4'
    } else if v == 5 {
        '5'
    } else if v == 6 {
        '6'
    } else if v == 7 {
        '7'
    } else if v == 8 {
        '8'
    } else if v == 9 {
        '9'
    } else if v == 10 {
        'a'
    } else if v == 11 {
        'b'
    } else if v == 12 {
        'c'
    } else if v == 13 {
        'd'
    } else if v == 14 {
        'e'
    } else {
        'f'
    }
}

fn hex_digit(v: u8) -> (c: char)
    requires
        v < 16,
    ensures
        c == spec_hex_digit(v),
{
    match v {
        0 => '0',
        1 => '1',
        2 => '2',
        3 => '3',
        4 => '4',
        5 => '5',
        6 => '6',
        7 => '7',
        8 => '8',
        9 => '9',
        10 => 'a',
        11 => 'b',
        12 => 'c',
        13 => 'd',
        14 => 'e',
        _ => 'f',
    }
}

/// The lower-case hex rendering of a byte sequence: two digits per byte,
/// high nibble first.
pub open spec fn hex_lower_of(bytes: Seq<u8>) -> Seq<char>
    decreases bytes.len(),
{
    if bytes.len() == 0 {
        Seq::empty()
    } else {
        hex_lower_of(bytes.drop_last()).push(spec_hex_digit(bytes.last() / 16)).push(
            spec_hex_digit(bytes.last() % 16),
        )
    }
}

pub proof fn lemma_hex_lower_len(bytes: Seq<u8>)
    ensures
        hex_lower_of(bytes).len() == 2 * bytes.len(),
    decreases bytes.len(),
{
    if bytes.len() > 0 {
        lemma_hex_lower_len(bytes.drop_last());
    }
}

fn encode_hex_lower(bytes: &[u8]) -> (hex: String)
    ensures
        hex@ == hex_lower_of(bytes@),
{
    let mut hex = String::new();
    let n = bytes.len();
    for i in 0..n
        invariant
            n == bytes@.len(),
            hex@ == hex_lower_of(bytes@.take(i as int)),
    {
        let b = bytes[i];
        push_char(&mut hex, hex_digit(b / 16));
        push_char(&mut hex, hex_digit(b % 16));
        proof {
            assert(bytes@.take(i + 1).drop_last() == bytes@.take(i as int));
            assert(bytes@.take(i + 1).last() == bytes@[i as int]);
        }
    }
    proof {
        assert(bytes@.take(n as int) == bytes@);
    }
    hex
}

/// The stored form of a secret, and the addressing digest of a path: the
/// SHA-256 of the input, rendered as 64 lower-case hex characters.
pub open spec fn spec_sha256_hex(data: Seq<char>) -> Seq<char> {
    hex_lower_of(sha256_of(data))
}

/// Hashes a string to the digest the protocol stores and compares:
/// SHA-256, printed as lower-case hex.
pub fn gen_sha_256_hash(string: &String) -> (hash: String)
    ensures
        hash@ == spec_sha256_hex(string@),
        hash@.len() == 64,
{
    let digest = sha256_digest(string.as_str());
    proof {
        lemma_hex_lower_len(digest@);
    }
    encode_hex_lower(digest.as_slice())
}

/// The ledger's sole addressing function: the digest of
/// `relative_path + file_name`, concatenated in that fixed order.
pub open spec fn content_key_of(relative_path: Seq<char>, file_name: Seq<char>) -> Seq<char> {
    spec_sha256_hex(relative_path + file_name)
}

/// Derives the addressing key of one logical path. Two pushes with the same
/// `relative_path` and `file_name` always address the same entry; the key
/// never depends on the file bytes.
pub fn compute_content_key(relative_path: &str, file_name: &str) -> (key: String)
    ensures
        key@ == content_key_of(relative_path@, file_name@),
        key@.len() == 64,
{
    let combined = String::from_str(relative_path).concat(file_name);
    gen_sha_256_hash(&combined)
}

/// The content key is deterministic and reproducible: it is a function of
/// the two path fields alone, so every call on the same path, in any
/// process, yields the same key.
pub proof fn lemma_content_key_deterministic(
    rel1: Seq<char>,
    name1: Seq<char>,
    rel2: Seq<char>,
    name2: Seq<char>,
)
    requires
        rel1 == rel2,
        name1 == name2,
    ensures
        content_key_of(rel1, name1) == content_key_of(rel2, name2),
{
}

} // verus!
