//! Function and event selectors: the first four bytes of the Keccak-256 hash of a signature.

use vstd::prelude::*;
use vstd::string::*;
use crate::text::{join, join_strings, strings_view};

verus! {

/// The Keccak-256 digest of a message, as the `sha3` crate computes it.
pub uninterp spec fn keccak256(message: Seq<u8>) -> Seq<u8>;

/// Hashes `message` with `Digest::digest` of `sha3::Keccak256`.
///
/// Trusted: the digest is the 32 bytes that Keccak-256 gives for the message, and depends
/// on the message alone.
#[verifier::external_body]
fn keccak256_digest(message: &[u8]) -> (digest: [u8; 32])
    ensures
        digest@ == keccak256(message@),
{
    <sha3::Keccak256 as sha3::Digest>::digest(message).into()
}

/// The number that four bytes write in big-endian order.
pub open spec fn be_u32(bytes: Seq<u8>) -> int {
    bytes[0] as int * 0x100_0000 + bytes[1] as int * 0x1_0000 + bytes[2] as int * 0x100
        + bytes[3] as int
}

/// Reads a big-endian `u32` with `byteorder::BigEndian::read_u32`.
///
/// Trusted: the result is the number that the first four bytes of `buf` write, most
/// significant byte first. The outside function panics on a shorter buffer.
#[verifier::external_body]
fn read_be_u32(buf: &[u8]) -> (value: u32)
    requires
        buf@.len() >= 4,
    ensures
        value as int == be_u32(buf@),
{
    <byteorder::BigEndian as byteorder::ByteOrder>::read_u32(buf)
}

/// A selector: four bytes, and the same four bytes read as a big-endian number.
#[derive(Clone, Copy, Debug)]
pub struct Selector {
    pub bytes: [u8; 4],
    pub value: u32,
}

impl Selector {
    /// The number is the one that the bytes write.
    pub open spec fn wf(self) -> bool {
        self.value as int == be_u32(self.bytes@)
    }
}

/// The text of a signature: the name, then the parameter types in brackets, with commas
/// and no spaces between them.
pub open spec fn signature(name: Seq<char>, param_types: Seq<Seq<char>>) -> Seq<char> {
    name + "("@ + join(param_types, ","@) + ")"@
}

/// The four selector bytes of a signature: the front of the Keccak-256 digest of its
/// UTF-8 bytes.
pub open spec fn selector_bytes(signature: Seq<char>) -> Seq<u8> {
    keccak256(vstd::utf8::encode_utf8(signature)).take(4)
}

/// The selector of a signature as a number.
pub open spec fn selector_value(signature: Seq<char>) -> int {
    be_u32(selector_bytes(signature))
}

/// The selector is decided by the name and the parameter types in their order, and by
/// nothing else: however often it is computed for them, it is the same.
pub proof fn lemma_selector_determined(
    name: Seq<char>,
    param_types: Seq<Seq<char>>,
    other_name: Seq<char>,
    other_types: Seq<Seq<char>>,
)
    requires
        name == other_name,
        param_types == other_types,
    ensures
        selector_bytes(signature(name, param_types)) == selector_bytes(
            signature(other_name, other_types),
        ),
        selector_value(signature(name, param_types)) == selector_value(
            signature(other_name, other_types),
        ),
{
}

/// The selector that a digest gives: its first four bytes.
pub fn selector_from_digest(digest: &[u8; 32]) -> (selector: Selector)
    ensures
        selector.bytes@ == digest@.take(4),
        selector.wf(),
{
    let bytes: [u8; 4] = [digest[0], digest[1], digest[2], digest[3]];
    assert(bytes@ =~= digest@.take(4));
    let value = read_be_u32(bytes.as_slice());
    Selector { bytes, value }
}

/// The selector of a signature that is already written out.
pub fn selector_of_signature(signature: &str) -> (selector: Selector)
    ensures
        selector.bytes@ == selector_bytes(signature@),
        selector.value as int == selector_value(signature@),
{
    let digest = keccak256_digest(signature.as_bytes());
    selector_from_digest(&digest)
}

/// Writes the signature of `name` with the given parameter types.
pub fn signature_text(name: &str, param_types: &Vec<String>) -> (text: String)
    ensures
        text@ == signature(name@, strings_view(param_types@)),
{
    let mut text = String::from_str(name);
    text.append("(");
    text.append(join_strings(param_types, ",").as_str());
    text.append(")");
    text
}

/// The selector of the function or event `name` with the given parameter types, in
/// order, and the signature that was hashed.
pub fn selector_for(name: &str, param_types: &Vec<String>) -> (r: (Selector, String))
    ensures
        r.1@ == signature(name@, strings_view(param_types@)),
        r.0.bytes@ == selector_bytes(r.1@),
        r.0.value as int == selector_value(r.1@),
{
    let text = signature_text(name, param_types);
    let selector = selector_of_signature(text.as_str());
    (selector, text)
}

} // verus!
