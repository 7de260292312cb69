//! Byte-addressable little-endian memory with alignment and bounds checks.
//! The base address of an access must be a multiple of the access width, and
//! the access must lie wholly within the memory.

use vstd::prelude::*;
use crate::error::RiscvError;

verus! {

/// Heap allocated little-endian memory, viewed as its sequence of bytes.
#[derive(Clone)]
pub struct Memory {
    mem: Vec<u8>,
}

impl View for Memory {
    type V = Seq<u8>;

    closed spec fn view(&self) -> Seq<u8> {
        self.mem@
    }
}

/// Little-endian value of the two bytes at `a`.
pub open spec fn spec_le_half(m: Seq<u8>, a: int) -> u32 {
    ((m[a] as u32) | ((m[a + 1] as u32) << 8)) as u32
}

/// Little-endian value of the four bytes at `a`.
pub open spec fn spec_le_word(m: Seq<u8>, a: int) -> u32 {
    ((m[a] as u32) | ((m[a + 1] as u32) << 8) | ((m[a + 2] as u32) << 16) | ((m[a + 3] as u32)
        << 24)) as u32
}

/// Byte `k` (0 = least significant) of the 32-bit value `w`.
pub open spec fn spec_word_byte(w: u32, k: int) -> u8 {
    ((w >> (8 * k) as u32) & 0xFF) as u8
}

/// The memory after storing the low byte of `data` at `a`.
pub open spec fn spec_store_byte(m: Seq<u8>, a: int, data: u32) -> Seq<u8> {
    m.update(a, spec_word_byte(data, 0))
}

/// The memory after storing the low half of `data` at `a`, little-endian.
pub open spec fn spec_store_half(m: Seq<u8>, a: int, data: u32) -> Seq<u8> {
    m.update(a, spec_word_byte(data, 0)).update(a + 1, spec_word_byte(data, 1))
}

/// The memory after storing `data` at `a`, little-endian.
pub open spec fn spec_store_word(m: Seq<u8>, a: int, data: u32) -> Seq<u8> {
    m.update(a, spec_word_byte(data, 0)).update(a + 1, spec_word_byte(data, 1)).update(
        a + 2,
        spec_word_byte(data, 2),
    ).update(a + 3, spec_word_byte(data, 3))
}

/// The memory after copying `bytes` over its start.
pub open spec fn spec_program(m: Seq<u8>, bytes: Seq<u8>) -> Seq<u8> {
    Seq::new(
        m.len(),
        |i: int|
            if i < bytes.len() {
                bytes[i]
            } else {
                m[i]
            },
    )
}

/// `bytes` with each aligned 4-byte chunk reversed; a short trailing chunk
/// is reversed within itself.
pub open spec fn spec_be_reorder(bytes: Seq<u8>) -> Seq<u8> {
    Seq::new(
        bytes.len(),
        |i: int|
            {
                let w = 4 * (i / 4);
                let cl = if bytes.len() - w < 4 {
                    bytes.len() - w
                } else {
                    4
                };
                bytes[w + cl - 1 - (i - w)]
            },
    )
}

/// The memory after storing each of `words` at offset `4 * index`,
/// little-endian.
pub open spec fn spec_program_words(m: Seq<u8>, words: Seq<u32>) -> Seq<u8> {
    Seq::new(
        m.len(),
        |i: int|
            if i < 4 * words.len() {
                spec_word_byte(words[i / 4], i % 4)
            } else {
                m[i]
            },
    )
}

/// An aligned address below `len` leaves room for the whole access, because
/// `len` is itself a multiple of the access width.
proof fn lemma_aligned_access_fits(addr: int, size: int, len: int)
    requires
        size == 2 || size == 4,
        addr % size == 0,
        len % 4 == 0,
        0 <= addr < len,
    ensures
        addr + size <= len,
{
    assert(len % size == 0) by (nonlinear_arith)
        requires
            len % 4 == 0,
            size == 2 || size == 4,
    ;
    assert(addr + size <= len) by (nonlinear_arith)
        requires
            addr % size == 0,
            len % size == 0,
            0 <= addr < len,
            size > 0,
    ;
}

/// Byte `k` of `w`, computed.
fn word_byte_exec(w: u32, k: u32) -> (r: u8)
    requires
        k < 4,
    ensures
        r == spec_word_byte(w, k as int),
{
    proof {
        assert(((w >> (8 * k)) & 0xFF) < 256) by (bit_vector);
    }
    ((w >> (8 * k)) & 0xFF) as u8
}

impl Memory {
    /// Size is positive and a whole number of words.
    pub open spec fn wf(&self) -> bool {
        self@.len() > 0 && self@.len() % 4 == 0
    }

    /// Allocate a zero-filled memory of `size` bytes; the size must be a
    /// positive multiple of 4.
    pub fn new(size: usize) -> (r: Memory)
        requires
            size > 0,
            size % 4 == 0,
        ensures
            r.wf(),
            r@ =~= Seq::new(size as nat, |i: int| 0u8),
    {
        let mut mem: Vec<u8> = Vec::new();
        let mut i: usize = 0;
        while i < size
            invariant
                i <= size,
                mem@.len() == i,
                forall|k: int| 0 <= k < i ==> mem@[k] == 0u8,
            decreases size - i,
        {
            mem.push(0);
            i = i + 1;
        }
        Memory { mem }
    }

    /// Number of bytes this memory holds.
    pub fn size(&self) -> (r: usize)
        ensures
            r == self@.len(),
    {
        self.mem.len()
    }

    /// Read the word at `addr` without counting as an observable data
    /// access; this is the instruction-supply path.
    pub fn fetch(&self, addr: u32) -> (r: Result<u32, RiscvError>)
        requires
            self.wf(),
        ensures
            r == spec_read_word(self@, addr),
    {
        self.read_word_impl(addr)
    }

    /// Read the word at `addr`, little-endian.
    pub fn read_word(&self, addr: u32) -> (r: Result<u32, RiscvError>)
        requires
            self.wf(),
        ensures
            r == spec_read_word(self@, addr),
    {
        self.read_word_impl(addr)
    }

    fn read_word_impl(&self, addr: u32) -> (r: Result<u32, RiscvError>)
        requires
            self.wf(),
        ensures
            r == spec_read_word(self@, addr),
    {
        if addr % 4 != 0 {
            Err(RiscvError::MemoryAlignmentError(addr))
        } else if addr as usize >= self.mem.len() {
            Err(RiscvError::MemoryOutOfBoundsError(addr))
        } else {
            proof {
                lemma_aligned_access_fits(addr as int, 4, self@.len() as int);
            }
            let a = addr as usize;
            let b0 = self.mem[a] as u32;
            let b1 = self.mem[a + 1] as u32;
            let b2 = self.mem[a + 2] as u32;
            let b3 = self.mem[a + 3] as u32;
            Ok(b0 | (b1 << 8) | (b2 << 16) | (b3 << 24))
        }
    }

    /// Read the half-word at `addr`, little-endian, zero-extended.
    pub fn read_half_word(&self, addr: u32) -> (r: Result<u32, RiscvError>)
        requires
            self.wf(),
        ensures
            r == spec_read_half(self@, addr),
    {
        if addr % 2 != 0 {
            Err(RiscvError::MemoryAlignmentError(addr))
        } else if addr as usize >= self.mem.len() {
            Err(RiscvError::MemoryOutOfBoundsError(addr))
        } else {
            proof {
                lemma_aligned_access_fits(addr as int, 2, self@.len() as int);
            }
            let a = addr as usize;
            let b0 = self.mem[a] as u32;
            let b1 = self.mem[a + 1] as u32;
            Ok(b0 | (b1 << 8))
        }
    }

    /// Read the byte at `addr`, zero-extended.
    pub fn read_byte(&self, addr: u32) -> (r: Result<u32, RiscvError>)
        requires
            self.wf(),
        ensures
            r == spec_read_byte(self@, addr),
    {
        if addr as usize >= self.mem.len() {
            Err(RiscvError::MemoryOutOfBoundsError(addr))
        } else {
            Ok(self.mem[addr as usize] as u32)
        }
    }

    /// Store `data` at `addr`, little-endian.
    pub fn write_word(&mut self, addr: u32, data: u32) -> (r: Result<(), RiscvError>)
        requires
            old(self).wf(),
        ensures
            final(self).wf(),
            final(self)@.len() == old(self)@.len(),
            spec_mem_check(old(self)@, addr, 4) matches Some(e) ==> r == Err::<(), RiscvError>(e)
                && final(self)@ == old(self)@,
            spec_mem_check(old(self)@, addr, 4) is None ==> r == Ok::<(), RiscvError>(()) && final(self)@
                == spec_store_word(old(self)@, addr as int, data),
    {
        if addr % 4 != 0 {
            Err(RiscvError::MemoryAlignmentError(addr))
        } else if addr as usize >= self.mem.len() {
            Err(RiscvError::MemoryOutOfBoundsError(addr))
        } else {
            proof {
                lemma_aligned_access_fits(addr as int, 4, self@.len() as int);
            }
            let a = addr as usize;
            self.mem[a] = word_byte_exec(data, 0);
            self.mem[a + 1] = word_byte_exec(data, 1);
            self.mem[a + 2] = word_byte_exec(data, 2);
            self.mem[a + 3] = word_byte_exec(data, 3);
            Ok(())
        }
    }

    /// Store the low 16 bits of `data` at `addr`, little-endian.
    pub fn write_half_word(&mut self, addr: u32, data: u32) -> (r: Result<(), RiscvError>)
        requires
            old(self).wf(),
        ensures
            final(self).wf(),
            final(self)@.len() == old(self)@.len(),
            spec_mem_check(old(self)@, addr, 2) matches Some(e) ==> r == Err::<(), RiscvError>(e)
                && final(self)@ == old(self)@,
            spec_mem_check(old(self)@, addr, 2) is None ==> r == Ok::<(), RiscvError>(()) && final(self)@
                == spec_store_half(old(self)@, addr as int, data),
    {
        if addr % 2 != 0 {
            Err(RiscvError::MemoryAlignmentError(addr))
        } else if addr as usize >= self.mem.len() {
            Err(RiscvError::MemoryOutOfBoundsError(addr))
        } else {
            proof {
                lemma_aligned_access_fits(addr as int, 2, self@.len() as int);
            }
            let a = addr as usize;
            self.mem[a] = word_byte_exec(data, 0);
            self.mem[a + 1] = word_byte_exec(data, 1);
            Ok(())
        }
    }

    /// Store the low 8 bits of `data` at `addr`.
    pub fn write_byte(&mut self, addr: u32, data: u32) -> (r: Result<(), RiscvError>)
        requires
            old(self).wf(),
        ensures
            final(self).wf(),
            final(self)@.len() == old(self)@.len(),
            spec_mem_check(old(self)@, addr, 1) matches Some(e) ==> r == Err::<(), RiscvError>(e)
                && final(self)@ == old(self)@,
            spec_mem_check(old(self)@, addr, 1) is None ==> r == Ok::<(), RiscvError>(()) && final(self)@
                == spec_store_byte(old(self)@, addr as int, data),
    {
        if addr as usize >= self.mem.len() {
            Err(RiscvError::MemoryOutOfBoundsError(addr))
        } else {
            self.mem[addr as usize] = word_byte_exec(data, 0);
            Ok(())
        }
    }

    /// Copy raw little-endian bytes to the start of memory. No alignment is
    /// required; bytes past the end of memory report the first address that
    /// does not exist.
    pub fn program_le_bytes(&mut self, bytes: &[u8]) -> (r: Result<(), RiscvError>)
        requires
            old(self).wf(),
        ensures
            final(self).wf(),
            final(self)@.len() == old(self)@.len(),
            bytes@.len() <= old(self)@.len() ==> r == Ok::<(), RiscvError>(()) && final(self)@
                == spec_program(old(self)@, bytes@),
            bytes@.len() > old(self)@.len() ==> r == Err::<(), RiscvError>(
                RiscvError::MemoryOutOfBoundsError(old(self)@.len() as u32),
            ) && final(self)@ == bytes@.take(old(self)@.len() as int),
    {
        let ghost orig = self@;
        let mut i: usize = 0;
        while i < bytes.len()
            invariant
                old(self).wf(),
                orig == old(self)@,
                self@.len() == orig.len(),
                i <= bytes@.len(),
                i <= orig.len(),
                forall|k: int| 0 <= k < i ==> self@[k] == bytes@[k],
                forall|k: int| i <= k < orig.len() ==> self@[k] == orig[k],
            decreases bytes@.len() - i,
        {
            if i >= self.mem.len() {
                proof {
                    assert(self@ =~= bytes@.take(orig.len() as int));
                }
                return Err(RiscvError::MemoryOutOfBoundsError(
                    #[verifier::truncate] (i as u32),
                ));
            }
            self.mem[i] = bytes[i];
            i = i + 1;
        }
        proof {
            assert(self@ =~= spec_program(orig, bytes@));
        }
        Ok(())
    }

    /// Copy big-endian words (given as raw bytes) to the start of memory,
    /// reversing each 4-byte chunk into little-endian order.
    pub fn program_be_bytes(&mut self, bytes: &[u8]) -> (r: Result<(), RiscvError>)
        requires
            old(self).wf(),
        ensures
            final(self).wf(),
            final(self)@.len() == old(self)@.len(),
            bytes@.len() <= old(self)@.len() ==> r == Ok::<(), RiscvError>(()) && final(self)@
                == spec_program(old(self)@, spec_be_reorder(bytes@)),
            bytes@.len() > old(self)@.len() ==> r == Err::<(), RiscvError>(
                RiscvError::MemoryOutOfBoundsError(old(self)@.len() as u32),
            ) && final(self)@ == spec_be_reorder(bytes@).take(old(self)@.len() as int),
    {
        let ghost orig = self@;
        let ghost re = spec_be_reorder(bytes@);
        let n = bytes.len();
        let mut i: usize = 0;
        while i < n
            invariant
                old(self).wf(),
                orig == old(self)@,
                self@.len() == orig.len(),
                n == bytes@.len(),
                re == spec_be_reorder(bytes@),
                i <= n,
                i <= orig.len(),
                forall|k: int| 0 <= k < i ==> self@[k] == re[k],
                forall|k: int| i <= k < orig.len() ==> self@[k] == orig[k],
            decreases n - i,
        {
            if i >= self.mem.len() {
                proof {
                    assert(self@ =~= re.take(orig.len() as int));
                }
                return Err(RiscvError::MemoryOutOfBoundsError(
                    #[verifier::truncate] (i as u32),
                ));
            }
            let w = (i / 4) * 4;
            let cl = if n - w < 4 {
                n - w
            } else {
                4
            };
            let src = w + cl - 1 - (i - w);
            self.mem[i] = bytes[src];
            i = i + 1;
        }
        proof {
            assert(self@ =~= spec_program(orig, re));
        }
        Ok(())
    }

    /// Store each word at offset `4 * index`, little-endian.
    pub fn program_words(&mut self, words: &[u32]) -> (r: Result<(), RiscvError>)
        requires
            old(self).wf(),
        ensures
            final(self).wf(),
            final(self)@.len() == old(self)@.len(),
            4 * words@.len() <= old(self)@.len() ==> r == Ok::<(), RiscvError>(()) && final(self)@
                == spec_program_words(old(self)@, words@),
            4 * words@.len() > old(self)@.len() ==> r == Err::<(), RiscvError>(
                RiscvError::MemoryOutOfBoundsError(old(self)@.len() as u32),
            ) && final(self)@ == spec_program_words(old(self)@, words@),
    {
        let ghost orig = self@;
        let mut w: usize = 0;
        while w < words.len()
            invariant
                old(self).wf(),
                orig == old(self)@,
                self@.len() == orig.len(),
                w <= words@.len(),
                4 * w <= orig.len(),
                forall|k: int| 0 <= k < 4 * w ==> self@[k] == spec_word_byte(words@[k / 4], k % 4),
                forall|k: int| 4 * w <= k < orig.len() ==> self@[k] == orig[k],
            decreases words@.len() - w,
        {
            if w >= self.mem.len() / 4 {
                proof {
                    assert(4 * (orig.len() as int / 4) == orig.len() as int) by (nonlinear_arith)
                        requires
                            orig.len() % 4 == 0,
                    ;
                    assert(self@ =~= spec_program_words(orig, words@));
                }
                return Err(RiscvError::MemoryOutOfBoundsError(
                    #[verifier::truncate] (self.mem.len() as u32),
                ));
            }
            proof {
                assert(4 * (w as int) + 4 <= 4 * (orig.len() as int / 4)) by (nonlinear_arith)
                    requires
                        (w as int) < orig.len() as int / 4,
                ;
                assert(4 * (orig.len() as int / 4) <= orig.len() as int) by (nonlinear_arith)
                    requires
                        orig.len() % 4 == 0,
                ;
            }
            let ghost before = self@;
            let base = w * 4;
            let data = words[w];
            self.mem[base] = word_byte_exec(data, 0);
            self.mem[base + 1] = word_byte_exec(data, 1);
            self.mem[base + 2] = word_byte_exec(data, 2);
            self.mem[base + 3] = word_byte_exec(data, 3);
            proof {
                lemma_program_words_step(orig, words@, before, self@, w as int);
            }
            w = w + 1;
        }
        proof {
            assert(self@ =~= spec_program_words(orig, words@));
        }
        Ok(())
    }
}

/// After writing word `w` at offset `4 * w`, the first `4 * (w + 1)` bytes
/// all hold their word's bytes.
proof fn lemma_program_words_step(
    orig: Seq<u8>,
    words: Seq<u32>,
    before: Seq<u8>,
    after: Seq<u8>,
    w: int,
)
    requires
        0 <= w < words.len(),
        before.len() == orig.len(),
        after.len() == orig.len(),
        4 * w + 4 <= orig.len(),
        forall|k: int| 0 <= k < 4 * w ==> before[k] == spec_word_byte(words[k / 4], k % 4),
        forall|k: int| 4 * w <= k < orig.len() ==> before[k] == orig[k],
        forall|j: int|
            0 <= j < 4 ==> after[4 * w + j] == spec_word_byte(words[w], j),
        forall|k: int|
            0 <= k < orig.len() && !(4 * w <= k < 4 * w + 4) ==> after[k] == before[k],
    ensures
        forall|k: int| 0 <= k < 4 * (w + 1) ==> after[k] == spec_word_byte(words[k / 4], k % 4),
        forall|k: int| 4 * (w + 1) <= k < orig.len() ==> after[k] == orig[k],
{
    assert forall|k: int| 0 <= k < 4 * (w + 1) implies after[k] == spec_word_byte(
        words[k / 4],
        k % 4,
    ) by {
        if k < 4 * w {
            assert(after[k] == before[k]);
        } else {
            let j = k - 4 * w;
            assert(after[4 * w + j] == spec_word_byte(words[w], j));
            assert(k / 4 == w && k % 4 == j) by (nonlinear_arith)
                requires
                    k == 4 * w + j,
                    0 <= j < 4,
            ;
        }
    }
}

/// The error, if any, that an access of `size` bytes at `addr` reports:
/// alignment is checked first, then bounds.
pub open spec fn spec_mem_check(m: Seq<u8>, addr: u32, size: u32) -> Option<RiscvError> {
    if addr as int % size as int != 0 {
        Some(RiscvError::MemoryAlignmentError(addr))
    } else if addr as int >= m.len() {
        Some(RiscvError::MemoryOutOfBoundsError(addr))
    } else {
        None
    }
}

/// What a word read at `addr` returns.
pub open spec fn spec_read_word(m: Seq<u8>, addr: u32) -> Result<u32, RiscvError> {
    match spec_mem_check(m, addr, 4) {
        Some(e) => Err(e),
        None => Ok(spec_le_word(m, addr as int)),
    }
}

/// What a half-word read at `addr` returns.
pub open spec fn spec_read_half(m: Seq<u8>, addr: u32) -> Result<u32, RiscvError> {
    match spec_mem_check(m, addr, 2) {
        Some(e) => Err(e),
        None => Ok(spec_le_half(m, addr as int)),
    }
}

/// What a byte read at `addr` returns.
pub open spec fn spec_read_byte(m: Seq<u8>, addr: u32) -> Result<u32, RiscvError> {
    match spec_mem_check(m, addr, 1) {
        Some(e) => Err(e),
        None => Ok(m[addr as int] as u32),
    }
}

/// An aligned read after the matching aligned write of the same width and
/// value returns that value: storing `data` as a word and reading it back
/// yields `data`.
pub proof fn lemma_word_read_after_write(m: Seq<u8>, addr: u32, data: u32)
    requires
        m.len() % 4 == 0,
        addr % 4 == 0,
        addr < m.len(),
    ensures
        spec_read_word(spec_store_word(m, addr as int, data), addr) == Ok::<u32, RiscvError>(data),
{
    lemma_aligned_access_fits(addr as int, 4, m.len() as int);
    let m2 = spec_store_word(m, addr as int, data);
    assert(m2[addr as int] == spec_word_byte(data, 0));
    assert(m2[addr as int + 1] == spec_word_byte(data, 1));
    assert(m2[addr as int + 2] == spec_word_byte(data, 2));
    assert(m2[addr as int + 3] == spec_word_byte(data, 3));
    let b0 = spec_word_byte(data, 0);
    let b1 = spec_word_byte(data, 1);
    let b2 = spec_word_byte(data, 2);
    let b3 = spec_word_byte(data, 3);
    assert(((b0 as u32) | ((b1 as u32) << 8) | ((b2 as u32) << 16) | ((b3 as u32) << 24)) == data)
        by (bit_vector)
        requires
            b0 == ((data >> 0) & 0xFF) as u8,
            b1 == ((data >> 8) & 0xFF) as u8,
            b2 == ((data >> 16) & 0xFF) as u8,
            b3 == ((data >> 24) & 0xFF) as u8,
    ;
}

/// The half-word analogue: storing the low 16 bits of `data` and reading
/// them back yields `data`'s low 16 bits.
pub proof fn lemma_half_read_after_write(m: Seq<u8>, addr: u32, data: u32)
    requires
        m.len() % 4 == 0,
        addr % 2 == 0,
        addr < m.len(),
    ensures
        spec_read_half(spec_store_half(m, addr as int, data), addr) == Ok::<u32, RiscvError>(
            (data & 0xFFFF) as u32,
        ),
{
    lemma_aligned_access_fits(addr as int, 2, m.len() as int);
    let m2 = spec_store_half(m, addr as int, data);
    let b0 = spec_word_byte(data, 0);
    let b1 = spec_word_byte(data, 1);
    assert(((b0 as u32) | ((b1 as u32) << 8)) == (data & 0xFFFF)) by (bit_vector)
        requires
            b0 == ((data >> 0) & 0xFF) as u8,
            b1 == ((data >> 8) & 0xFF) as u8,
    ;
}

/// The byte analogue: storing the low 8 bits of `data` and reading them back
/// yields `data`'s low byte.
pub proof fn lemma_byte_read_after_write(m: Seq<u8>, addr: u32, data: u32)
    requires
        addr < m.len(),
    ensures
        spec_read_byte(spec_store_byte(m, addr as int, data), addr) == Ok::<u32, RiscvError>(
            (data & 0xFF) as u32,
        ),
{
    let b0 = spec_word_byte(data, 0);
    assert((b0 as u32) == (data & 0xFF)) by (bit_vector)
        requires
            b0 == ((data >> 0) & 0xFF) as u8,
    ;
}

} // verus!
