//! Running 32-bit checksum over a byte stream.
//!
//! The checksum is the reflected CRC-32 with generator `0xEDB88320`, an
//! all-ones seed and an all-ones final inversion.  It is defined here bit by
//! bit, as a shift register, and the accumulator is proved against that
//! definition.

use vstd::prelude::*;

verus! {

/// Value of the shift register before any byte was folded in.
pub const CRC32_SEED: u32 = 0xFFFF_FFFF;

/// Generator polynomial, least significant bit first.
pub const CRC32_POLY: u32 = 0xEDB8_8320;

/// The register after one bit has been shifted out.
pub open spec fn shift_bit(reg: u32) -> u32 {
    if reg & 1 == 1 {
        (reg >> 1) ^ CRC32_POLY
    } else {
        reg >> 1
    }
}

/// The register after `n` bits have been shifted out.
pub open spec fn shift_bits(reg: u32, n: nat) -> u32
    decreases n,
{
    if n == 0 {
        reg
    } else {
        shift_bit(shift_bits(reg, (n - 1) as nat))
    }
}

/// The register after one byte has been folded in.
pub open spec fn fold_byte(reg: u32, byte: u8) -> u32 {
    shift_bits(reg ^ (byte as u32), 8)
}

/// The register after `bytes` have been folded in, first byte first.
pub open spec fn fold_bytes(reg: u32, bytes: Seq<u8>) -> u32
    decreases bytes.len(),
{
    if bytes.len() == 0 {
        reg
    } else {
        fold_byte(fold_bytes(reg, bytes.drop_last()), bytes.last())
    }
}

/// The checksum of a whole byte sequence.
pub open spec fn crc32(bytes: Seq<u8>) -> u32 {
    fold_bytes(CRC32_SEED, bytes) ^ 0xFFFF_FFFF
}

/// Folding two chunks one after the other is folding their concatenation:
/// how a stream is cut into chunks does not change the register.
pub proof fn lemma_fold_bytes_concat(reg: u32, a: Seq<u8>, b: Seq<u8>)
    ensures
        fold_bytes(fold_bytes(reg, a), b) == fold_bytes(reg, a + b),
    decreases b.len(),
{
    if b.len() == 0 {
        assert(a + b =~= a);
    } else {
        lemma_fold_bytes_concat(reg, a, b.drop_last());
        assert((a + b).drop_last() =~= a + b.drop_last());
        assert((a + b).last() == b.last());
    }
}

/// The checksum of a stream does not depend on where it is cut: an
/// accumulator that is given `a` and then `b` has seen what one that is given
/// `a + b` at once has seen, and reports the same checksum.
pub proof fn lemma_crc32_chunked(seen: Seq<u8>, a: Seq<u8>, b: Seq<u8>)
    ensures
        (seen + a) + b == seen + (a + b),
        crc32((seen + a) + b) == crc32(seen + (a + b)),
        crc32((seen + a) + b) == fold_bytes(fold_bytes(fold_bytes(CRC32_SEED, seen), a), b)
            ^ 0xFFFF_FFFF,
{
    assert((seen + a) + b =~= seen + (a + b));
    lemma_fold_bytes_concat(CRC32_SEED, seen, a);
    lemma_fold_bytes_concat(CRC32_SEED, seen + a, b);
}

/// The checksum of no bytes is zero.
pub proof fn lemma_crc32_empty()
    ensures
        crc32(Seq::empty()) == 0,
{
    assert(CRC32_SEED ^ 0xFFFF_FFFF == 0) by (bit_vector);
}

/// Incremental checksum accumulator.
///
/// Its view is the sequence of bytes folded in since it was created or last
/// reset.
#[derive(Clone, Copy)]
pub struct Crc32 {
    reg: u32,
    seen: Ghost<Seq<u8>>,
}

impl View for Crc32 {
    type V = Seq<u8>;

    closed spec fn view(&self) -> Seq<u8> {
        self.seen@
    }
}

impl Crc32 {
    #[verifier::type_invariant]
    spec fn register_matches(&self) -> bool {
        self.reg == fold_bytes(CRC32_SEED, self.seen@)
    }

    /// An accumulator that has seen no bytes.
    pub fn init() -> (crc: Self)
        ensures
            crc@ == Seq::<u8>::empty(),
    {
        Crc32 { reg: CRC32_SEED, seen: Ghost(Seq::empty()) }
    }

    /// Folds `bytes` into the accumulator, after what it has already seen.
    pub fn add(&mut self, bytes: &[u8])
        ensures
            final(self)@ == old(self)@ + bytes@,
    {
        proof {
            use_type_invariant(&*self);
        }
        let ghost before = self.seen@;
        let mut reg = self.reg;
        let mut i: usize = 0;
        while i < bytes.len()
            invariant
                i <= bytes@.len(),
                reg == fold_bytes(CRC32_SEED, before + bytes@.take(i as int)),
            decreases bytes@.len() - i,
        {
            let ghost prev = before + bytes@.take(i as int);
            reg = fold_one(reg, bytes[i]);
            proof {
                let next = before + bytes@.take(i + 1);
                assert(next.drop_last() =~= prev);
                assert(next.last() == bytes@[i as int]);
            }
            i += 1;
        }
        proof {
            assert(bytes@.take(i as int) =~= bytes@);
        }
        *self = Crc32 { reg, seen: Ghost(before + bytes@) };
    }

    /// The checksum of everything seen so far.  The accumulator is left as it
    /// is, so the call can be repeated and more bytes can follow.
    pub fn finish(&self) -> (sum: u32)
        ensures
            sum == crc32(self@),
    {
        proof {
            use_type_invariant(self);
        }
        self.reg ^ 0xFFFF_FFFF
    }

    /// Forgets everything seen so far.
    pub fn reset(&mut self)
        ensures
            final(self)@ == Seq::<u8>::empty(),
    {
        *self = Crc32 { reg: CRC32_SEED, seen: Ghost(Seq::empty()) };
    }
}

/// Folds one byte into a register value.
fn fold_one(reg: u32, byte: u8) -> (out: u32)
    ensures
        out == fold_byte(reg, byte),
{
    let mut cur: u32 = reg ^ (byte as u32);
    let mut k: u8 = 0;
    while k < 8
        invariant
            k <= 8,
            cur == shift_bits(reg ^ (byte as u32), k as nat),
        decreases 8 - k,
    {
        cur = if cur & 1 == 1 {
            (cur >> 1) ^ CRC32_POLY
        } else {
            cur >> 1
        };
        k += 1;
    }
    cur
}

} // verus!
