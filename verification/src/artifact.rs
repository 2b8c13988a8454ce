//! The deployable form of a compiled module: the module behind a 4-byte big-endian length
//! field, and that frame in hexadecimal.

use vstd::prelude::*;
use crate::selector::be_u32;

verus! {

/// The four bytes that write `n` in big-endian order.
pub open spec fn be_bytes(n: int) -> Seq<u8> {
    seq![
        (n / 0x100_0000 % 0x100) as u8,
        (n / 0x1_0000 % 0x100) as u8,
        (n / 0x100 % 0x100) as u8,
        (n % 0x100) as u8,
    ]
}

/// The length that the frame states: the length of the module in its low 32 bits.
pub open spec fn stated_length(module: Seq<u8>) -> int {
    module.len() as int % 0x1_0000_0000
}

/// The module behind its length field.
pub open spec fn framed_module(module: Seq<u8>) -> Seq<u8> {
    be_bytes(stated_length(module)) + module
}

/// The character of a hexadecimal digit, in lower case.
pub open spec fn hex_digit(d: int) -> char {
    if d < 10 {
        (48 + d) as char
    } else {
        (87 + d) as char
    }
}

/// Bytes in hexadecimal: two lower-case digits for each byte, the high digit first.
pub open spec fn hex_text(data: Seq<u8>) -> Seq<char> {
    Seq::new(
        2 * data.len(),
        |i: int|
            if i % 2 == 0 {
                hex_digit(data[i / 2] as int / 16)
            } else {
                hex_digit(data[i / 2] as int % 16)
            },
    )
}

/// Encodes bytes with `hex::encode`.
///
/// Trusted: the text holds two lower-case hexadecimal digits for each byte, in the order
/// of the bytes, the high digit of a byte first.
#[verifier::external_body]
fn hex_encode(data: &[u8]) -> (text: String)
    ensures
        text@ == hex_text(data@),
{
    hex::encode(data)
}

/// The four bytes of a length field read back as a number give the number.
pub proof fn lemma_be_bytes_round_trip(n: int)
    requires
        0 <= n < 0x1_0000_0000,
    ensures
        be_u32(be_bytes(n)) == n,
{
}

/// A framed module starts with its stated length and goes on with the module itself.
pub proof fn lemma_framed_module(module: Seq<u8>)
    ensures
        framed_module(module).len() == module.len() + 4,
        be_u32(framed_module(module).take(4)) == stated_length(module),
        framed_module(module).skip(4) == module,
{
    lemma_be_bytes_round_trip(stated_length(module));
    assert(framed_module(module).take(4) =~= be_bytes(stated_length(module)));
    assert(framed_module(module).skip(4) =~= module);
}

/// Puts the 4-byte big-endian length field in front of a module.
pub fn frame_module(module: &[u8]) -> (framed: Vec<u8>)
    ensures
        framed@ == framed_module(module@),
{
    let length: u64 = module.len() as u64 % 0x1_0000_0000;
    let mut framed: Vec<u8> = Vec::new();
    framed.push((length / 0x100_0000 % 0x100) as u8);
    framed.push((length / 0x1_0000 % 0x100) as u8);
    framed.push((length / 0x100 % 0x100) as u8);
    framed.push((length % 0x100) as u8);
    assert(framed@ =~= be_bytes(stated_length(module@)));
    let mut i: usize = 0;
    while i < module.len()
        invariant
            i <= module.len(),
            framed@ == be_bytes(stated_length(module@)) + module@.take(i as int),
        decreases module.len() - i,
    {
        framed.push(module[i]);
        assert(framed@ =~= be_bytes(stated_length(module@)) + module@.take(i + 1));
        i += 1;
    }
    assert(module@.take(module@.len() as int) =~= module@);
    framed
}

/// A module ready to be deployed.
pub struct Deployable {
    /// The module behind its length field.
    pub framed: Vec<u8>,
    /// The framed module in hexadecimal.
    pub hex: String,
}

/// Frames a module and writes the frame in hexadecimal.
pub fn package_module(module: &[u8]) -> (deployable: Deployable)
    ensures
        deployable.framed@ == framed_module(module@),
        deployable.hex@ == hex_text(framed_module(module@)),
{
    let framed = frame_module(module);
    let hex = hex_encode(framed.as_slice());
    Deployable { framed, hex }
}

} // verus!
