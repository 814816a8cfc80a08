//! Streaming CRC-32 over a range of storage.
//!
//! The checksum is the bit-reflected CRC-32 with polynomial `0xEDB88320`,
//! initial register `0xFFFFFFFF` and final XOR `0xFFFFFFFF`. Its
//! definition here is bit-serial; the executable code folds a byte at a
//! time and reads storage in chunks of at most 64 bytes.

use vstd::prelude::*;
use crate::{Flasher, region, in_range, read_chunk};

verus! {

/// The reflected CRC-32 polynomial.
pub const POLYNOMIAL: u32 = 0xEDB8_8320;

/// The register before the first byte.
pub const INITIAL_REGISTER: u32 = 0xFFFF_FFFF;

/// The value XORed onto the register after the last byte.
pub const FINAL_XOR: u32 = 0xFFFF_FFFF;

/// One step of the shift register: shift right by one bit and, if the bit
/// shifted out was set, XOR the polynomial in.
pub open spec fn crc_shift(reg: u32) -> u32 {
    if reg & 1 == 1 {
        (reg >> 1) ^ POLYNOMIAL
    } else {
        reg >> 1
    }
}

/// `steps` steps of the shift register.
pub open spec fn crc_shifts(reg: u32, steps: nat) -> u32
    decreases steps,
{
    if steps == 0 {
        reg
    } else {
        crc_shift(crc_shifts(reg, (steps - 1) as nat))
    }
}

/// Eight steps of the shift register.
pub open spec fn crc_shift8(reg: u32) -> u32 {
    crc_shift(
        crc_shift(crc_shift(crc_shift(crc_shift(crc_shift(crc_shift(crc_shift(reg))))))),
    )
}

/// The register after one more byte of the message: the byte is XORed
/// into the low end of the register, which is then stepped eight times.
pub open spec fn crc_byte(reg: u32, byte: u8) -> u32 {
    crc_shift8(reg ^ (byte as u32))
}

/// The register after all of `bytes`, in order, starting from `reg`.
pub open spec fn crc_fold(reg: u32, bytes: Seq<u8>) -> u32
    decreases bytes.len(),
{
    if bytes.len() == 0 {
        reg
    } else {
        crc_byte(crc_fold(reg, bytes.drop_last()), bytes.last())
    }
}

/// The CRC-32 of `bytes`.
pub open spec fn crc32(bytes: Seq<u8>) -> u32 {
    crc_fold(INITIAL_REGISTER, bytes) ^ FINAL_XOR
}

/// Whether the range `[start, start + len)` of `mem` exists and has the
/// CRC-32 `checksum`.
pub open spec fn image_matches(mem: Seq<u8>, start: int, len: int, checksum: int) -> bool {
    &&& in_range(mem, start, len)
    &&& crc32(region(mem, start, len)) == checksum
}

proof fn lemma_shifts_eight(reg: u32)
    ensures
        crc_shifts(reg, 8) == crc_shift8(reg),
{
    reveal_with_fuel(crc_shifts, 9);
}

proof fn lemma_low_byte_form(reg: u32, byte: u8)
    ensures
        crc_shift8((reg ^ (byte as u32)) & 0xFF) ^ (reg >> 8) == crc_byte(reg, byte),
{
    assert(crc_shift8((reg ^ (byte as u32)) & 0xFF) ^ (reg >> 8) == crc_shift8(
        reg ^ (byte as u32),
    )) by (bit_vector);
}

/// Folds one byte into the register.
pub fn fold_byte(reg: u32, byte: u8) -> (next: u32)
    ensures
        next == crc_byte(reg, byte),
{
    let low: u32 = (reg ^ (byte as u32)) & 0xFF;
    let mut val: u32 = low;
    let mut step: u8 = 0;
    while step < 8
        invariant
            step <= 8,
            val == crc_shifts(low, step as nat),
        decreases 8 - step,
    {
        assert(val & 1 != 0 <==> val & 1 == 1) by (bit_vector);
        if val & 1 != 0 {
            val = (val >> 1) ^ POLYNOMIAL;
        } else {
            val = val >> 1;
        }
        step = step + 1;
    }
    proof {
        lemma_shifts_eight(low);
        lemma_low_byte_form(reg, byte);
    }
    val ^ (reg >> 8)
}

/// Folds all of `bytes`, in order, into the register.
pub fn fold_bytes(reg: u32, bytes: &[u8]) -> (next: u32)
    ensures
        next == crc_fold(reg, bytes@),
{
    let mut crc: u32 = reg;
    let mut i: usize = 0;
    while i < bytes.len()
        invariant
            i <= bytes@.len(),
            crc == crc_fold(reg, bytes@.take(i as int)),
        decreases bytes@.len() - i,
    {
        assert(bytes@.take(i + 1).drop_last() == bytes@.take(i as int));
        crc = fold_byte(crc, bytes[i]);
        i = i + 1;
    }
    assert(bytes@.take(i as int) == bytes@);
    crc
}

/// Computes the CRC-32 of `bytes`.
pub fn checksum_of(bytes: &[u8]) -> (sum: u32)
    ensures
        sum == crc32(bytes@),
{
    fold_bytes(INITIAL_REGISTER, bytes) ^ FINAL_XOR
}

/// Folding a message is the same however it is cut into chunks: folding
/// `head` and then `tail` gives the register of folding `head + tail`.
pub proof fn lemma_fold_chunks(reg: u32, head: Seq<u8>, tail: Seq<u8>)
    ensures
        crc_fold(crc_fold(reg, head), tail) == crc_fold(reg, head + tail),
    decreases tail.len(),
{
    if tail.len() > 0 {
        lemma_fold_chunks(reg, head, tail.drop_last());
        assert((head + tail).drop_last() == head + tail.drop_last());
    }
}

/// Two neighbouring regions of a memory, joined, are the region that
/// covers both.
pub proof fn lemma_region_join(mem: Seq<u8>, start: int, first: int, second: int)
    requires
        0 <= first,
        0 <= second,
    ensures
        region(mem, start, first) + region(mem, start + first, second) == region(
            mem,
            start,
            first + second,
        ),
{
}

/// The empty range exists everywhere, and its checksum is 0.
pub proof fn lemma_empty_image(mem: Seq<u8>, start: int, checksum: int)
    ensures
        image_matches(mem, start, 0, checksum) == (checksum == 0),
{
    assert(0xFFFF_FFFFu32 ^ 0xFFFF_FFFFu32 == 0u32) by (bit_vector);
}

proof fn lemma_byte_distinguishes(reg: u32, a: u8, b: u8)
    requires
        a != b,
    ensures
        crc_byte(reg, a) != crc_byte(reg, b),
{
    assert(a != b ==> crc_shift8(reg ^ (a as u32)) != crc_shift8(reg ^ (b as u32)))
        by (bit_vector);
}

proof fn lemma_register_distinguishes(r1: u32, r2: u32, byte: u8)
    requires
        r1 != r2,
    ensures
        crc_byte(r1, byte) != crc_byte(r2, byte),
{
    assert(r1 != r2 ==> crc_shift8(r1 ^ (byte as u32)) != crc_shift8(r2 ^ (byte as u32)))
        by (bit_vector);
}

/// Registers that differ still differ after folding the same bytes into
/// both.
pub proof fn lemma_fold_keeps_difference(r1: u32, r2: u32, bytes: Seq<u8>)
    requires
        r1 != r2,
    ensures
        crc_fold(r1, bytes) != crc_fold(r2, bytes),
    decreases bytes.len(),
{
    if bytes.len() > 0 {
        lemma_fold_keeps_difference(r1, r2, bytes.drop_last());
        lemma_register_distinguishes(
            crc_fold(r1, bytes.drop_last()),
            crc_fold(r2, bytes.drop_last()),
            bytes.last(),
        );
    }
}

/// CRC-32 detects every change of a single byte: two messages of one
/// length that differ at exactly one position have different checksums.
pub proof fn lemma_detects_changed_byte(a: Seq<u8>, b: Seq<u8>, at: int)
    requires
        a.len() == b.len(),
        0 <= at < a.len(),
        a[at] != b[at],
        forall|i: int| 0 <= i < a.len() && i != at ==> a[i] == b[i],
    ensures
        crc32(a) != crc32(b),
{
    let head = a.take(at);
    let tail = a.skip(at + 1);
    assert(a == head.push(a[at]) + tail);
    assert(b == head.push(b[at]) + tail);
    assert(head.push(a[at]).drop_last() == head);
    assert(head.push(b[at]).drop_last() == head);
    let before = crc_fold(INITIAL_REGISTER, head);
    lemma_byte_distinguishes(before, a[at], b[at]);
    lemma_fold_chunks(INITIAL_REGISTER, head.push(a[at]), tail);
    lemma_fold_chunks(INITIAL_REGISTER, head.push(b[at]), tail);
    lemma_fold_keeps_difference(crc_byte(before, a[at]), crc_byte(before, b[at]), tail);
    let ra = crc_fold(INITIAL_REGISTER, a);
    let rb = crc_fold(INITIAL_REGISTER, b);
    assert(ra != rb ==> ra ^ 0xFFFF_FFFFu32 != rb ^ 0xFFFF_FFFFu32) by (bit_vector);
}

/// Verifies that the `len` bytes of storage from `start_adr` have the
/// CRC-32 `checksum`.
///
/// The range is read in chunks of at most `CHUNK_SIZE` bytes, never past
/// its end. The verification fails as soon as a chunk fails (its read
/// fails, delivers nothing, or claims more than was asked for; see
/// [`chunk_len`](crate::chunk_len)), and at once if `start_adr + len`
/// exceeds `usize::MAX`. A `true` result therefore means that the range
/// exists and its checksum matches. The empty range is never read: its
/// verdict is `checksum == 0`. On storage that delivers, the verdict is
/// exact: `true` if and only if the range exists, ends at an address, and
/// has the checksum.
pub fn check_crc<T>(start_adr: usize, len: usize, checksum: usize, flasher: &T) -> (ok: bool) where
    T: Flasher,

    ensures
        ok ==> image_matches(flasher.contents(), start_adr as int, len as int, checksum as int),
        len == 0 ==> ok == (checksum == 0),
        start_adr + len > usize::MAX ==> !ok,
        flasher.delivers() ==> ok == (start_adr + len <= usize::MAX && image_matches(
            flasher.contents(),
            start_adr as int,
            len as int,
            checksum as int,
        )),
{
    if start_adr > usize::MAX - len {
        return false;
    }
    let ghost mem = flasher.contents();
    let mut crc: u32 = INITIAL_REGISTER;
    let mut bytes_left: usize = len;
    let mut index: usize = 0;
    while bytes_left > 0
        invariant
            index + bytes_left == len,
            start_adr + len <= usize::MAX,
            mem == flasher.contents(),
            in_range(mem, start_adr as int, index as int),
            crc == crc_fold(INITIAL_REGISTER, region(mem, start_adr as int, index as int)),
        decreases bytes_left,
    {
        let mut buf: [u8; 64] = [0u8; 64];
        match read_chunk(flasher, start_adr + index, bytes_left, &mut buf) {
            Some(taken) => {
                let chunk = vstd::slice::slice_subrange(buf.as_slice(), 0, taken);
                proof {
                    lemma_fold_chunks(
                        INITIAL_REGISTER,
                        region(mem, start_adr as int, index as int),
                        chunk@,
                    );
                    lemma_region_join(mem, start_adr as int, index as int, taken as int);
                }
                crc = fold_bytes(crc, chunk);
                bytes_left = bytes_left - taken;
                index = index + taken;
            },
            None => {
                return false;
            },
        }
    }
    proof {
        lemma_empty_image(mem, start_adr as int, checksum as int);
    }
    checksum == (crc ^ FINAL_XOR) as usize
}

} // verus!
