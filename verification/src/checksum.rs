//! The two checksums that guard a frame: an 8-bit one over the length field
//! and a 32-bit one over the frame body.

use vstd::prelude::*;

verus! {

/// Generator of the 8-bit checksum, x^8 + x^2 + x + 1 without its top bit.
pub const CRC8_POLY: u8 = 0x07;

/// Generator of the 32-bit checksum in reflected form.
pub const CRC32_POLY: u32 = 0xEDB8_8320;

/// One shift of the 8-bit register, most significant bit first.
pub open spec fn crc8_shift(crc: u8) -> u8 {
    if crc & 0x80 != 0 {
        (crc << 1) ^ CRC8_POLY
    } else {
        crc << 1
    }
}

/// The 8-bit register after `rounds` shifts.
pub open spec fn crc8_rounds(crc: u8, rounds: nat) -> u8
    decreases rounds,
{
    if rounds == 0 {
        crc
    } else {
        crc8_shift(crc8_rounds(crc, (rounds - 1) as nat))
    }
}

/// The 8-bit register after one more byte has been fed into it.
pub open spec fn crc8_feed(crc: u8, byte: u8) -> u8 {
    crc8_rounds(crc ^ byte, 8)
}

/// The 8-bit checksum of `data`: register zero at the start, no final
/// inversion.
pub open spec fn crc8_of(data: Seq<u8>) -> u8
    decreases data.len(),
{
    if data.len() == 0 {
        0
    } else {
        crc8_feed(crc8_of(data.drop_last()), data.last())
    }
}

/// One shift of the 32-bit register, least significant bit first.
pub open spec fn crc32_shift(crc: u32) -> u32 {
    if crc & 1 != 0 {
        (crc >> 1) ^ CRC32_POLY
    } else {
        crc >> 1
    }
}

/// The 32-bit register after `rounds` shifts.
pub open spec fn crc32_rounds(crc: u32, rounds: nat) -> u32
    decreases rounds,
{
    if rounds == 0 {
        crc
    } else {
        crc32_shift(crc32_rounds(crc, (rounds - 1) as nat))
    }
}

/// The 32-bit register after one more byte has been fed into it.
pub open spec fn crc32_feed(crc: u32, byte: u8) -> u32 {
    crc32_rounds(crc ^ (byte as u32), 8)
}

/// The 32-bit register after all of `data`, starting from all ones.
pub open spec fn crc32_register(data: Seq<u8>) -> u32
    decreases data.len(),
{
    if data.len() == 0 {
        0xFFFF_FFFF
    } else {
        crc32_feed(crc32_register(data.drop_last()), data.last())
    }
}

/// The 32-bit checksum of `data`: the inverted final register.
pub open spec fn crc32_of(data: Seq<u8>) -> u32 {
    !crc32_register(data)
}

fn crc8_update(crc: u8, byte: u8) -> (next: u8)
    ensures
        next == crc8_feed(crc, byte),
{
    let mut reg: u8 = crc ^ byte;
    let mut round: u8 = 0;
    while round < 8
        invariant
            round <= 8,
            reg == crc8_rounds(crc ^ byte, round as nat),
        decreases 8 - round,
    {
        reg = if reg & 0x80 != 0 {
            (reg << 1) ^ CRC8_POLY
        } else {
            reg << 1
        };
        round += 1;
    }
    reg
}

fn crc32_update(crc: u32, byte: u8) -> (next: u32)
    ensures
        next == crc32_feed(crc, byte),
{
    let mut reg: u32 = crc ^ (byte as u32);
    let mut round: u8 = 0;
    while round < 8
        invariant
            round <= 8,
            reg == crc32_rounds(crc ^ (byte as u32), round as nat),
        decreases 8 - round,
    {
        reg = if reg & 1 != 0 {
            (reg >> 1) ^ CRC32_POLY
        } else {
            reg >> 1
        };
        round += 1;
    }
    reg
}

/// Computes the 8-bit checksum of `data`.
pub fn crc8(data: &[u8]) -> (crc: u8)
    ensures
        crc == crc8_of(data@),
{
    let mut crc: u8 = 0;
    let mut i: usize = 0;
    while i < data.len()
        invariant
            i <= data.len(),
            crc == crc8_of(data@.take(i as int)),
        decreases data.len() - i,
    {
        proof {
            let next = data@.take(i + 1);
            assert(next.drop_last() =~= data@.take(i as int));
        }
        crc = crc8_update(crc, data[i]);
        i += 1;
    }
    proof {
        assert(data@.take(i as int) =~= data@);
    }
    crc
}

/// Computes the 32-bit checksum of `data`.
pub fn crc32(data: &[u8]) -> (crc: u32)
    ensures
        crc == crc32_of(data@),
{
    let mut reg: u32 = 0xFFFF_FFFF;
    let mut i: usize = 0;
    while i < data.len()
        invariant
            i <= data.len(),
            reg == crc32_register(data@.take(i as int)),
        decreases data.len() - i,
    {
        proof {
            let next = data@.take(i + 1);
            assert(next.drop_last() =~= data@.take(i as int));
        }
        reg = crc32_update(reg, data[i]);
        i += 1;
    }
    proof {
        assert(data@.take(i as int) =~= data@);
    }
    !reg
}

} // verus!
