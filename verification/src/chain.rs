//! Hashing and proof-of-work for a simple block chain, and wallet
//! addresses.

use vstd::prelude::*;
use vstd::string::StringSliceAdditionalSpecFns;

use crate::numeric::{decimal, push_decimal};
use crate::text::string_of;

verus! {

/// The lowercase hexadecimal digit of `d < 16`.
pub open spec fn hex_digit(d: nat) -> char {
    if d < 10 {
        ('0' as u32 + d) as char
    } else {
        ('a' as u32 + (d - 10)) as char
    }
}

/// `bytes` in lowercase hexadecimal, two digits per byte.
pub open spec fn lower_hex(bytes: Seq<u8>) -> Seq<char>
    decreases bytes.len(),
{
    if bytes.len() == 0 {
        seq![]
    } else {
        lower_hex(bytes.drop_last()) + seq![
            hex_digit((bytes.last() / 16) as nat),
            hex_digit((bytes.last() % 16) as nat),
        ]
    }
}

/// The bytes of an ASCII text.
pub open spec fn ascii_bytes(s: Seq<char>) -> Seq<u8> {
    s.map_values(|c: char| c as u8)
}

/// The SHA-256 digest of `data`.
pub uninterp spec fn sha256_of(data: Seq<u8>) -> Seq<u8>;

/// The text that a proof is checked on: the last proof and the candidate
/// written one after the other in decimal.
pub open spec fn guess_text(last_proof: u64, proof: u64) -> Seq<char> {
    decimal(last_proof as nat) + decimal(proof as nat)
}

/// `proof` is a valid successor of `last_proof`: the hexadecimal SHA-256
/// digest of their decimal texts side by side starts with `0000`.
pub open spec fn valid_proof_spec(last_proof: u64, proof: u64) -> bool {
    lower_hex(sha256_of(ascii_bytes(guess_text(last_proof, proof)))).take(4) == "0000"@
}

pub proof fn lemma_lower_hex_len(bytes: Seq<u8>)
    ensures
        lower_hex(bytes).len() == 2 * bytes.len(),
    decreases bytes.len(),
{
    if bytes.len() > 0 {
        lemma_lower_hex_len(bytes.drop_last());
    }
}

/// SHA-256 of `data`, computed by the `sha2` crate's `Sha256::digest`.
/// Trusted: the digest is the named value `sha256_of(data)` and is 32
/// bytes long.
#[verifier::external_body]
fn sha256(data: &[u8]) -> (d: Vec<u8>)
    ensures
        d@ == sha256_of(data@),
        d@.len() == 32,
{
    <sha2::Sha256 as sha2::Digest>::digest(data).to_vec()
}

/// Encodes bytes in lowercase hexadecimal with the `hex` crate's
/// `hex::encode`.  Trusted: the text is two lowercase digits per byte,
/// high half first, as the crate documents.
#[verifier::external_body]
fn hex_encode(bytes: &[u8]) -> (s: String)
    ensures
        s@ == lower_hex(bytes@),
{
    hex::encode(bytes)
}

/// A random byte from the thread's generator (`rand::random`).  Nothing is
/// promised of its value.
#[verifier::external_body]
fn random_byte() -> u8 {
    rand::random::<u8>()
}

/// The lowercase hexadecimal digit of `d < 16`.
fn hex_char(d: u8) -> (c: char)
    requires
        d < 16,
    ensures
        c == hex_digit(d as nat),
{
    if d == 0 { '0' } else if d == 1 { '1' } else if d == 2 { '2' } else if d == 3 { '3' }
    else if d == 4 { '4' } else if d == 5 { '5' } else if d == 6 { '6' } else if d == 7 { '7' }
    else if d == 8 { '8' } else if d == 9 { '9' } else if d == 10 { 'a' } else if d == 11 { 'b' }
    else if d == 12 { 'c' } else if d == 13 { 'd' } else if d == 14 { 'e' } else { 'f' }
}

/// `bytes` in lowercase hexadecimal (as `{:x}` prints a digest).
pub fn to_lower_hex(bytes: &[u8]) -> (s: Vec<char>)
    ensures
        s@ == lower_hex(bytes@),
{
    let mut s: Vec<char> = Vec::new();
    let mut i: usize = 0;
    while i < bytes.len()
        invariant
            i <= bytes.len(),
            s@ == lower_hex(bytes@.take(i as int)),
        decreases bytes.len() - i,
    {
        let b = bytes[i];
        s.push(hex_char(b / 16));
        s.push(hex_char(b % 16));
        proof {
            crate::text::lemma_take_succ(bytes@, i as int);
        }
        assert(s@ =~= lower_hex(bytes@.take(i as int + 1)));
        i += 1;
    }
    assert(bytes@.take(bytes.len() as int) =~= bytes@);
    s
}

/// The hash of a block from its serialised text: the lowercase hexadecimal
/// SHA-256 digest of the text's bytes.
pub fn block_hash(encoded: &str) -> (h: String)
    ensures
        h@ == lower_hex(sha256_of(encoded.spec_bytes())),
        h@.len() == 64,
{
    let d = sha256(encoded.as_bytes());
    let hex = to_lower_hex(d.as_slice());
    proof {
        lemma_lower_hex_len(d@);
    }
    string_of(hex.as_slice())
}

/// Whether `proof` is a valid successor of `last_proof`.
pub fn valid_proof(last_proof: u64, proof: u64) -> (b: bool)
    ensures
        b == valid_proof_spec(last_proof, proof),
{
    let mut text: Vec<char> = Vec::new();
    push_decimal(&mut text, last_proof);
    push_decimal(&mut text, proof);
    assert(text@ == guess_text(last_proof, proof));
    let mut bytes: Vec<u8> = Vec::new();
    let mut i: usize = 0;
    while i < text.len()
        invariant
            i <= text.len(),
            bytes@ == ascii_bytes(text@).take(i as int),
        decreases text.len() - i,
    {
        #[verifier::truncate]
        let byte = text[i] as u8;
        bytes.push(byte);
        assert(bytes@ =~= ascii_bytes(text@).take(i as int + 1));
        i += 1;
    }
    assert(ascii_bytes(text@).take(text.len() as int) =~= ascii_bytes(text@));
    let d = sha256(bytes.as_slice());
    let hex = to_lower_hex(d.as_slice());
    proof {
        lemma_lower_hex_len(d@);
        reveal_strlit("0000");
    }
    let r = hex[0] == '0' && hex[1] == '0' && hex[2] == '0' && hex[3] == '0';
    proof {
        let z = "0000"@;
        assert(z.len() == 4 && z[0] == '0' && z[1] == '0' && z[2] == '0' && z[3] == '0');
        if r {
            assert(hex@.take(4) =~= z);
        } else {
            if hex@.take(4) == z {
                assert(hex@.take(4)[0] == hex@[0]);
                assert(hex@.take(4)[1] == hex@[1]);
                assert(hex@.take(4)[2] == hex@[2]);
                assert(hex@.take(4)[3] == hex@[3]);
            }
        }
    }
    r
}

/// The smallest proof that is a valid successor of `last_proof`, found by
/// trying 0, 1, 2, ... in turn; `None` if no 64-bit number is one.
pub fn proof_of_work(last_proof: u64) -> (r: Option<u64>)
    ensures
        match r {
            Some(p) => valid_proof_spec(last_proof, p) && forall|q: u64|
                q < p ==> !valid_proof_spec(last_proof, q),
            None => forall|q: u64| !valid_proof_spec(last_proof, q),
        },
{
    let mut proof: u64 = 0;
    loop
        invariant
            forall|q: u64| q < proof ==> !valid_proof_spec(last_proof, q),
        decreases u64::MAX - proof,
    {
        if valid_proof(last_proof, proof) {
            return Some(proof);
        }
        if proof == u64::MAX {
            return None;
        }
        proof = proof + 1;
    }
}

/// A new wallet address: twenty random bytes in lowercase hexadecimal.
pub fn generate_address() -> (a: String)
    ensures
        exists|b: Seq<u8>| b.len() == 20 && a@ == lower_hex(b),
{
    let mut bytes: Vec<u8> = Vec::new();
    let mut i: usize = 0;
    while i < 20
        invariant
            i <= 20,
            bytes.len() == i,
        decreases 20 - i,
    {
        bytes.push(random_byte());
        i += 1;
    }
    let a = hex_encode(bytes.as_slice());
    assert(bytes@.len() == 20 && a@ == lower_hex(bytes@));
    a
}

} // verus!
