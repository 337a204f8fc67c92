//! The CRC-32 checksum that closes a gzip stream.

use vstd::prelude::*;

verus! {

/// The checksum register after one more bit: shifted down by one, and
/// mixed with the reversed polynomial where a one was shifted out.
pub open spec fn crc_shift(register: u32) -> u32 {
    if register & 1 == 1 {
        (register >> 1) ^ 0xEDB8_8320
    } else {
        register >> 1
    }
}

/// The checksum register after `bits` more bits.
pub open spec fn crc_shifts(register: u32, bits: nat) -> u32
    decreases bits,
{
    if bits == 0 {
        register
    } else {
        crc_shift(crc_shifts(register, (bits - 1) as nat))
    }
}

/// The checksum register after `bytes`: it starts with every bit set, and
/// each byte is mixed into its low end and then shifted through, bit by bit.
pub open spec fn crc_register(bytes: Seq<u8>) -> u32
    decreases bytes.len(),
{
    if bytes.len() == 0 {
        0xFFFF_FFFF
    } else {
        crc_shifts(crc_register(bytes.drop_last()) ^ (bytes.last() as u32), 8)
    }
}

/// The CRC-32 checksum of `bytes`, as gzip uses it: the register after the
/// bytes, every bit turned over.
pub open spec fn crc32(bytes: Seq<u8>) -> u32 {
    crc_register(bytes) ^ 0xFFFF_FFFF
}

/// Computes the CRC-32 checksum of `bytes`.
pub fn checksum(bytes: &[u8]) -> (sum: u32)
    ensures
        sum == crc32(bytes@),
{
    let mut register: u32 = 0xFFFF_FFFF;
    let mut done: usize = 0;
    proof {
        assert(bytes@.take(0) =~= Seq::<u8>::empty());
    }
    while done < bytes.len()
        invariant
            done <= bytes.len(),
            register == crc_register(bytes@.take(done as int)),
        decreases bytes.len() - done,
    {
        register = register ^ (bytes[done] as u32);
        let ghost mixed = register;
        let mut bit: u8 = 0;
        while bit < 8
            invariant
                bit <= 8,
                register == crc_shifts(mixed, bit as nat),
            decreases 8 - bit,
        {
            register = if register & 1 == 1 {
                (register >> 1) ^ 0xEDB8_8320
            } else {
                register >> 1
            };
            bit += 1;
        }
        proof {
            let upto = bytes@.take(done + 1);
            assert(upto.drop_last() =~= bytes@.take(done as int));
            assert(upto.last() == bytes@[done as int]);
        }
        done += 1;
    }
    proof {
        assert(bytes@.take(done as int) =~= bytes@);
    }
    register ^ 0xFFFF_FFFF
}

} // verus!
