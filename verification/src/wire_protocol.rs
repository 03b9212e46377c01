//! Encoding of one color-channel byte into the three bytes that reproduce
//! the strip's pulse-width protocol when clocked out over the serial bus.
//!
//! Each source bit (least significant first) becomes a 3-bit symbol
//! `(low, bit, high)`; the 24 symbol bits are packed into three bytes with
//! the earliest-generated bit in the least significant position.

use vstd::prelude::*;

verus! {

/// True when bit `k` (least significant bit first) of `input` is set.
pub open spec fn channel_bit(input: u8, k: u8) -> bool {
    (input >> k) & 1 == 1
}

/// Bit `i` of the 24-bit waveform for one channel byte: source bit `i / 3`
/// is carried by the symbol `(low, bit, high)` at positions
/// `3 * (i / 3) + (0, 1, 2)`.
pub open spec fn symbol_bit(input: u8, i: int) -> bool {
    if i % 3 == 0 {
        false
    } else if i % 3 == 1 {
        channel_bit(input, (i / 3) as u8)
    } else {
        true
    }
}

/// The 24 waveform bits for one channel byte, in emission order.
pub open spec fn symbol_bits(input: u8) -> Seq<bool> {
    Seq::new(24, |i: int| symbol_bit(input, i))
}

/// The value of a byte assembled from 8 bits, least significant bit first.
pub open spec fn byte_from_bits(bs: Seq<bool>) -> u8
    recommends
        bs.len() == 8,
{
    ((if bs[0] { 1int } else { 0int }) + (if bs[1] { 2int } else { 0int })
        + (if bs[2] { 4int } else { 0int }) + (if bs[3] { 8int } else { 0int })
        + (if bs[4] { 16int } else { 0int }) + (if bs[5] { 32int } else { 0int })
        + (if bs[6] { 64int } else { 0int }) + (if bs[7] { 128int } else { 0int })) as u8
}

/// The three bus bytes that carry the waveform of one channel byte: the 24
/// waveform bits packed 8 to a byte, earliest bit least significant.
pub open spec fn spi_bytes(input: u8) -> Seq<u8> {
    seq![
        byte_from_bits(symbol_bits(input).subrange(0, 8)),
        byte_from_bits(symbol_bits(input).subrange(8, 16)),
        byte_from_bits(symbol_bits(input).subrange(16, 24)),
    ]
}

/// Pack exactly 8 booleans (least significant first) into one byte.
pub fn bool_slice_to_u8(input: &[bool]) -> (out: u8)
    requires
        input@.len() == 8,
    ensures
        out == byte_from_bits(input@),
{
    let mut out: u8 = 0;
    if input[0] {
        out = out + 1;
    }
    if input[1] {
        out = out + 2;
    }
    if input[2] {
        out = out + 4;
    }
    if input[3] {
        out = out + 8;
    }
    if input[4] {
        out = out + 16;
    }
    if input[5] {
        out = out + 32;
    }
    if input[6] {
        out = out + 64;
    }
    if input[7] {
        out = out + 128;
    }
    out
}

/// Encode one color-channel byte into its three bus bytes.
///
/// Total for every input; the result is a pure function of `input`.
pub fn byte_to_spi_bytes(input: u8) -> (out: [u8; 3])
    ensures
        out@ == spi_bytes(input),
{
    // first expand the u8 into the 24 waveform bits
    let mut bits: Vec<bool> = Vec::new();
    let mut bit_index: usize = 0;
    while bit_index < 8
        invariant
            bit_index <= 8,
            bits@.len() == 3 * bit_index,
            forall|j: int| 0 <= j < bits@.len() ==> bits@[j] == symbol_bit(input, j),
        decreases 8 - bit_index,
    {
        let k: u8 = bit_index as u8;
        let bit = input & (1u8 << k) != 0;
        proof {
            assert((input & (1u8 << k) != 0) == ((input >> k) & 1 == 1)) by (bit_vector)
                requires
                    k < 8,
            ;
            let bi = bit_index as int;
            assert((3 * bi) % 3 == 0 && (3 * bi + 1) % 3 == 1 && (3 * bi + 1) / 3 == bi && (3 * bi
                + 2) % 3 == 2) by (nonlinear_arith)
                requires
                    0 <= bi,
            ;
        }
        // the symbol for this source bit: a leading low, the bit, a trailing high
        bits.push(false);
        bits.push(bit);
        bits.push(true);
        bit_index = bit_index + 1;
    }
    proof {
        assert(bits@ =~= symbol_bits(input));
    }
    // then pack the 24 bits into three bytes
    let out = [
        bool_slice_to_u8(vstd::slice::slice_subrange(bits.as_slice(), 0, 8)),
        bool_slice_to_u8(vstd::slice::slice_subrange(bits.as_slice(), 8, 16)),
        bool_slice_to_u8(vstd::slice::slice_subrange(bits.as_slice(), 16, 24)),
    ];
    proof {
        assert(out@ =~= spi_bytes(input));
    }
    out
}

} // verus!
