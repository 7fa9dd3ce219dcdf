//! CRC-64 over byte buffers, in the reflected ECMA-182 form.

use vstd::prelude::*;

verus! {

/// The reflected ECMA-182 polynomial.
pub const POLY: u64 = 0xC96C5795D7870F42;

/// One shift of the register: the low bit leaves, and where it was set the
/// polynomial is folded in.
pub open spec fn crc_shift(crc: u64) -> u64 {
    if crc & 1 == 1 {
        (crc >> 1) ^ POLY
    } else {
        crc >> 1
    }
}

/// The register after `n` shifts.
pub open spec fn crc_shifts(crc: u64, n: nat) -> u64
    decreases n,
{
    if n == 0 {
        crc
    } else {
        crc_shift(crc_shifts(crc, (n - 1) as nat))
    }
}

/// The register after one byte was taken in: the byte is xored into the low
/// end, then the register shifts eight times.
pub open spec fn crc_step(crc: u64, byte: u8) -> u64 {
    crc_shifts(crc ^ (byte as u64), 8)
}

/// The register after all of `data` was taken in, starting from `init`.
pub open spec fn crc_fold(init: u64, data: Seq<u8>) -> u64
    decreases data.len(),
{
    if data.len() == 0 {
        init
    } else {
        crc_step(crc_fold(init, data.drop_last()), data.last())
    }
}

/// The checksum of `data`: the register starts with every bit set, takes in
/// the bytes in order, and is inverted at the end.
pub open spec fn spec_crc(data: Seq<u8>) -> u64 {
    !crc_fold(0xFFFF_FFFF_FFFF_FFFF, data)
}

/// One shift loses nothing: registers that shift to the same value were the
/// same.
pub proof fn lemma_shift_injective(a: u64, b: u64)
    requires
        crc_shift(a) == crc_shift(b),
    ensures
        a == b,
{
    assert((if a & 1 == 1 {
        (a >> 1) ^ 0xC96C5795D7870F42u64
    } else {
        a >> 1
    }) == (if b & 1 == 1 {
        (b >> 1) ^ 0xC96C5795D7870F42u64
    } else {
        b >> 1
    }) ==> a == b) by (bit_vector);
}

/// Any number of shifts loses nothing.
pub proof fn lemma_shifts_injective(a: u64, b: u64, n: nat)
    requires
        crc_shifts(a, n) == crc_shifts(b, n),
    ensures
        a == b,
    decreases n,
{
    if n > 0 {
        lemma_shift_injective(crc_shifts(a, (n - 1) as nat), crc_shifts(b, (n - 1) as nat));
        lemma_shifts_injective(a, b, (n - 1) as nat);
    }
}

/// Taking in the same byte, different registers stay different.
pub proof fn lemma_step_keeps_registers_apart(a: u64, b: u64, byte: u8)
    requires
        crc_step(a, byte) == crc_step(b, byte),
    ensures
        a == b,
{
    let x = byte as u64;
    lemma_shifts_injective(a ^ x, b ^ x, 8);
    assert((a ^ x) == (b ^ x) ==> a == b) by (bit_vector);
}

/// Taking in different bytes, the same register becomes different ones.
pub proof fn lemma_step_tells_bytes_apart(crc: u64, x: u8, y: u8)
    requires
        crc_step(crc, x) == crc_step(crc, y),
    ensures
        x == y,
{
    lemma_shifts_injective(crc ^ (x as u64), crc ^ (y as u64), 8);
    assert((crc ^ (x as u64)) == (crc ^ (y as u64)) ==> x == y) by (bit_vector);
}

/// Taking in the same bytes, different registers stay different.
pub proof fn lemma_fold_keeps_registers_apart(a: u64, b: u64, data: Seq<u8>)
    requires
        crc_fold(a, data) == crc_fold(b, data),
    ensures
        a == b,
    decreases data.len(),
{
    if data.len() > 0 {
        lemma_step_keeps_registers_apart(
            crc_fold(a, data.drop_last()),
            crc_fold(b, data.drop_last()),
            data.last(),
        );
        lemma_fold_keeps_registers_apart(a, b, data.drop_last());
    }
}

/// The checksum tells apart two buffers of one length that differ in
/// exactly one byte.
pub proof fn lemma_crc_detects_changed_byte(good: Seq<u8>, bad: Seq<u8>, at: int)
    requires
        good.len() == bad.len(),
        0 <= at < good.len(),
        good[at] != bad[at],
        forall|k: int| 0 <= k < good.len() && k != at ==> good[k] == bad[k],
    ensures
        spec_crc(good) != spec_crc(bad),
{
    let init: u64 = 0xFFFF_FFFF_FFFF_FFFF;
    lemma_fold_detects_changed_byte(init, good, bad, at);
    let a = crc_fold(init, good);
    let b = crc_fold(init, bad);
    assert(!a == !b ==> a == b) by (bit_vector);
}

proof fn lemma_fold_detects_changed_byte(init: u64, good: Seq<u8>, bad: Seq<u8>, at: int)
    requires
        good.len() == bad.len(),
        0 <= at < good.len(),
        good[at] != bad[at],
        forall|k: int| 0 <= k < good.len() && k != at ==> good[k] == bad[k],
    ensures
        crc_fold(init, good) != crc_fold(init, bad),
    decreases good.len(),
{
    let last = good.len() - 1;
    if at == last {
        assert(good.drop_last() =~= bad.drop_last());
        if crc_fold(init, good) == crc_fold(init, bad) {
            lemma_step_tells_bytes_apart(crc_fold(init, good.drop_last()), good.last(), bad.last());
        }
    } else {
        lemma_fold_detects_changed_byte(init, good.drop_last(), bad.drop_last(), at);
        assert(good.last() == bad.last());
        if crc_fold(init, good) == crc_fold(init, bad) {
            lemma_step_keeps_registers_apart(
                crc_fold(init, good.drop_last()),
                crc_fold(init, bad.drop_last()),
                good.last(),
            );
        }
    }
}

/// Calculate the CRC-64 checksum of `data`.
pub fn calculate_crc(data: &[u8]) -> (crc: u64)
    ensures
        crc == spec_crc(data@),
{
    let mut crc: u64 = 0xFFFF_FFFF_FFFF_FFFF;
    let mut i: usize = 0;
    while i < data.len()
        invariant
            i <= data.len(),
            crc == crc_fold(0xFFFF_FFFF_FFFF_FFFF, data@.take(i as int)),
        decreases data.len() - i,
    {
        let ghost before = crc;
        crc = crc ^ (data[i] as u64);
        let mut bit: u8 = 0;
        while bit < 8
            invariant
                bit <= 8,
                crc == crc_shifts(before ^ (data@[i as int] as u64), bit as nat),
            decreases 8 - bit,
        {
            if crc & 1 == 1 {
                crc = (crc >> 1) ^ POLY;
            } else {
                crc = crc >> 1;
            }
            bit = bit + 1;
        }
        proof {
            let next = data@.take(i + 1);
            assert(next.drop_last() =~= data@.take(i as int));
            assert(next.last() == data@[i as int]);
        }
        i = i + 1;
    }
    proof {
        assert(data@.take(i as int) =~= data@);
    }
    !crc
}

} // verus!
