//! Four-byte length headers in the machine's own byte order.
use vstd::prelude::*;

verus! {

/// `v` as four bytes, least significant first.
pub open spec fn le_bytes(v: u32) -> Seq<u8> {
    seq![
        (v % 256) as u8,
        ((v / 256) % 256) as u8,
        ((v / 65536) % 256) as u8,
        (v / 16777216) as u8,
    ]
}

/// `v` as four bytes, most significant first.
pub open spec fn be_bytes(v: u32) -> Seq<u8> {
    seq![
        (v / 16777216) as u8,
        ((v / 65536) % 256) as u8,
        ((v / 256) % 256) as u8,
        (v % 256) as u8,
    ]
}

/// `b` is `v` in one of the two byte orders a machine may have.
pub open spec fn native_bytes(b: Seq<u8>, v: u32) -> bool {
    b == le_bytes(v) || b == be_bytes(v)
}

/// The bytes of `x` in the machine's byte order.
///
/// Wraps `u32::to_ne_bytes`. Its documentation says the result is the
/// little-endian or the big-endian representation, as the target platform
/// has it; the contract claims that it is one of the two and leaves open which.
#[verifier::external_body]
pub(crate) fn u32_to_ne_bytes(x: u32) -> (r: [u8; 4])
    ensures
        native_bytes(r@, x),
{
    x.to_ne_bytes()
}

/// `v` as four bytes in the given byte order.
pub open spec fn order_bytes(little_endian: bool, v: u32) -> Seq<u8> {
    if little_endian {
        le_bytes(v)
    } else {
        be_bytes(v)
    }
}

/// The number that four bytes stand for, read in the given byte order:
/// what `u32::from_le_bytes` or `u32::from_be_bytes` gives.
pub open spec fn read_u32(little_endian: bool, b: Seq<u8>) -> int {
    if little_endian {
        b[0] + 256 * b[1] + 65536 * b[2] + 16777216 * b[3]
    } else {
        b[3] + 256 * b[2] + 65536 * b[1] + 16777216 * b[0]
    }
}

/// `v` as four bytes in the given byte order.
pub(crate) fn u32_to_bytes_in(little_endian: bool, v: u32) -> (r: [u8; 4])
    ensures
        r@ == order_bytes(little_endian, v),
{
    let b0 = (v % 256) as u8;
    let b1 = ((v / 256) % 256) as u8;
    let b2 = ((v / 65536) % 256) as u8;
    let b3 = (v / 16777216) as u8;
    let r = if little_endian {
        [b0, b1, b2, b3]
    } else {
        [b3, b2, b1, b0]
    };
    assert(r@ =~= order_bytes(little_endian, v));
    r
}

/// Bytes written in one order read back, in that order, as the number
/// written: the header is the number it encodes.
pub proof fn lemma_read_back(little_endian: bool, v: u32)
    ensures
        order_bytes(little_endian, v).len() == 4,
        read_u32(little_endian, order_bytes(little_endian, v)) == v,
        native_bytes(order_bytes(little_endian, v), v),
{
    let x = v as int;
    vstd::arithmetic::div_mod::lemma_fundamental_div_mod(x, 256);
    vstd::arithmetic::div_mod::lemma_fundamental_div_mod(x / 256, 256);
    vstd::arithmetic::div_mod::lemma_fundamental_div_mod(x / 65536, 256);
    vstd::arithmetic::div_mod::lemma_div_denominator(x, 256, 256);
    vstd::arithmetic::div_mod::lemma_div_denominator(x, 65536, 256);
    assert(x / 256 / 256 == x / 65536);
    assert(x / 65536 / 256 == x / 16777216);
    assert(x / 16777216 < 256);
}

/// Zero has one encoding in either byte order.
pub proof fn lemma_zero_header(b: Seq<u8>)
    ensures
        native_bytes(b, 0) <==> b == seq![0u8, 0u8, 0u8, 0u8],
{
    assert(le_bytes(0) =~= seq![0u8, 0u8, 0u8, 0u8]);
    assert(be_bytes(0) =~= seq![0u8, 0u8, 0u8, 0u8]);
}

} // verus!
