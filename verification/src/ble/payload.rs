//! Little-endian field extraction shared by the payload decoders.
use vstd::prelude::*;

verus! {

/// The value of a little-endian 16-bit field at offset `i`.
pub open spec fn le16_at(data: Seq<u8>, i: int) -> int {
    data[i] + 256 * data[i + 1]
}

/// The value of a little-endian 32-bit field at offset `i`.
pub open spec fn le32_at(data: Seq<u8>, i: int) -> int {
    data[i] + 256 * data[i + 1] + 65536 * data[i + 2] + 16777216 * data[i + 3]
}

/// A 16-bit field read as a signed two's-complement value.
pub open spec fn sint16(v: int) -> int {
    if v < 32768 {
        v
    } else {
        v - 65536
    }
}

/// The two little-endian bytes of a 16-bit value.
pub open spec fn le16_bytes(v: int) -> Seq<u8> {
    seq![(v % 256) as u8, ((v / 256) % 256) as u8]
}

/// The four little-endian bytes of a 32-bit value.
pub open spec fn le32_bytes(v: int) -> Seq<u8> {
    seq![
        (v % 256) as u8,
        ((v / 256) % 256) as u8,
        ((v / 65536) % 256) as u8,
        ((v / 16777216) % 256) as u8,
    ]
}

/// A 16-bit value survives the trip through its little-endian bytes.
pub proof fn lemma_le16_value(v: int)
    requires
        0 <= v < 65536,
    ensures
        (v % 256) + 256 * ((v / 256) % 256) == v,
{
    assert((v % 256) + 256 * ((v / 256) % 256) == v) by (nonlinear_arith)
        requires
            0 <= v < 65536,
    ;
}

/// A 32-bit value survives the trip through its little-endian bytes.
pub proof fn lemma_le32_value(v: int)
    requires
        0 <= v < 4294967296,
    ensures
        (v % 256) + 256 * ((v / 256) % 256) + 65536 * ((v / 65536) % 256) + 16777216 * ((v
            / 16777216) % 256) == v,
{
    assert((v % 256) + 256 * ((v / 256) % 256) + 65536 * ((v / 65536) % 256) + 16777216 * ((v
        / 16777216) % 256) == v) by (nonlinear_arith)
        requires
            0 <= v < 4294967296,
    ;
}

/// Reads the little-endian 16-bit field at offset `i`.
pub fn read_u16_le(data: &Vec<u8>, i: usize) -> (r: u16)
    requires
        i + 2 <= data@.len(),
    ensures
        r == le16_at(data@, i as int),
{
    let n: usize = data.len();
    assert(i + 2 <= n);
    (data[i] as u16) + 256 * (data[i + 1] as u16)
}

/// Reads the little-endian 32-bit field at offset `i`.
pub fn read_u32_le(data: &Vec<u8>, i: usize) -> (r: u32)
    requires
        i + 4 <= data@.len(),
    ensures
        r == le32_at(data@, i as int),
{
    let n: usize = data.len();
    assert(i + 4 <= n);
    (data[i] as u32) + 256 * (data[i + 1] as u32) + 65536 * (data[i + 2] as u32) + 16777216 * (
    data[i + 3] as u32)
}

/// Reads the little-endian 16-bit field at offset `i` as a signed value.
pub fn read_i16_le(data: &Vec<u8>, i: usize) -> (r: i16)
    requires
        i + 2 <= data@.len(),
    ensures
        r == sint16(le16_at(data@, i as int)),
{
    let raw: u32 = read_u16_le(data, i) as u32;
    if raw < 32768 {
        raw as i16
    } else {
        (raw as i32 - 65536) as i16
    }
}

} // verus!
