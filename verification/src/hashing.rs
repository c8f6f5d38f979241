//! The selector of a function: the first four bytes of the Keccak-256 hash of
//! its signature.

use vstd::prelude::*;
use vstd::string::*;
use vstd::utf8::encode_utf8;
use tiny_keccak::{Hasher, Keccak};
use crate::text::{signature_string, signature_text, texts};

verus! {

/// The first four bytes of the Keccak-256 hash of a byte string.
pub uninterp spec fn keccak256_first4(data: Seq<u8>) -> Seq<u8>;

/// Hashes `data` with `tiny_keccak::Keccak::v256`, fed through
/// `Hasher::update` and read with `Hasher::finalize` into four bytes. The
/// hasher reads nothing but the bytes it is given, so the contract names the
/// result by them.
#[verifier::external_body]
fn keccak256_prefix(data: &[u8]) -> (out: [u8; 4])
    ensures
        out@ == keccak256_first4(data@),
{
    let mut out = [0u8; 4];
    let mut hasher = Keccak::v256();
    hasher.update(data);
    hasher.finalize(&mut out);
    out
}

/// The selector of the function `name` whose inputs have the types
/// `input_types`: the hash prefix of the UTF-8 bytes of its signature.
pub open spec fn selector_of(name: Seq<char>, input_types: Seq<Seq<char>>) -> Seq<u8> {
    keccak256_first4(encode_utf8(signature_text(name, input_types)))
}

/// Computes the selector of a function from its name and the types of its
/// inputs.
pub fn selector(name: &str, input_types: &Vec<String>) -> (sig: [u8; 4])
    ensures
        sig@ == selector_of(name@, texts(input_types@)),
{
    let text = signature_string(name, input_types);
    keccak256_prefix(text.as_str().as_bytes())
}

} // verus!
