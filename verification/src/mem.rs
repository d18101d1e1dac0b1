//! Flat byte-addressable memory with typed reads and writes at byte, half
//! and word granularities, sign-extending reads, and a FIFO of pending
//! stores that is drained in arrival order.

use vstd::prelude::*;
use std::collections::VecDeque;
use crate::word;

verus! {

/// Access width of a memory operation.
#[derive(Clone, Copy, Debug, PartialEq, Eq, Structural)]
pub enum Size {
    WORD,
    HALF,
    BYTE,
}

/// Why a memory operation was refused.
#[derive(Clone, Copy, Debug, PartialEq, Eq, Structural)]
pub enum MemError {
    /// The accessed range ends past the last byte of memory.
    OutOfBounds,
    /// The pending-store FIFO was empty.
    NoPendingStore,
}

impl Size {
    /// Width of the access in bytes.
    pub open spec fn spec_width(self) -> nat {
        match self {
            Size::WORD => 4,
            Size::HALF => 2,
            Size::BYTE => 1,
        }
    }

    /// Width of the access in bytes.
    pub fn width(self) -> (n: usize)
        ensures
            n == self.spec_width(),
    {
        match self {
            Size::WORD => 4,
            Size::HALF => 2,
            Size::BYTE => 1,
        }
    }
}

/// The zero-extended value read little-endian from `mem` at `loc`.
pub open spec fn read_val(mem: Seq<u8>, loc: int, s: Size) -> u32
    recommends
        0 <= loc,
        loc + s.spec_width() <= mem.len(),
{
    match s {
        Size::BYTE => mem[loc] as u32,
        Size::HALF => word::half_of_bytes(mem[loc], mem[loc + 1]),
        Size::WORD => word::word_of_bytes(mem[loc], mem[loc + 1], mem[loc + 2], mem[loc + 3]),
    }
}

/// The sign-extended value read little-endian from `mem` at `loc`.
pub open spec fn read_val_signed(mem: Seq<u8>, loc: int, s: Size) -> i32
    recommends
        0 <= loc,
        loc + s.spec_width() <= mem.len(),
{
    match s {
        Size::BYTE => (mem[loc] as i8) as i32,
        Size::HALF => ((word::half_of_bytes(mem[loc], mem[loc + 1]) as u16) as i16) as i32,
        Size::WORD => read_val(mem, loc, Size::WORD) as i32,
    }
}

/// `mem` with the low `s.spec_width()` bytes of `v` stored little-endian at
/// `loc`; all other bytes are unchanged.
pub open spec fn store_bytes(mem: Seq<u8>, loc: int, v: u32, s: Size) -> Seq<u8>
    recommends
        0 <= loc,
        loc + s.spec_width() <= mem.len(),
{
    Seq::new(
        mem.len(),
        |i: int| if loc <= i < loc + s.spec_width() {
            word::byte_of(v, i - loc)
        } else {
            mem[i]
        },
    )
}

/// Byte-addressable storage plus the FIFO of pending stores.
pub struct Memory {
    /// The architectural bytes.
    pub data: Vec<u8>,
    /// Stores queued but not yet applied, oldest first.
    pub write_queue: VecDeque<(usize, u32, Size)>,
}

impl Memory {
    /// Every queued store fits inside the byte array, so committing one
    /// cannot fail on bounds.
    pub open spec fn wf(self) -> bool {
        forall|k: int| 0 <= k < self.write_queue@.len()
            ==> #[trigger] self.write_queue@[k].0 + self.write_queue@[k].2.spec_width()
                <= self.data@.len()
    }

    /// Memory size in bytes.
    pub open spec fn spec_size(self) -> nat {
        self.data@.len()
    }

    /// A fresh memory of `size` zero bytes and no pending stores.
    pub fn new(size: usize) -> (m: Memory)
        ensures
            m.wf(),
            m.data@ == Seq::new(size as nat, |i: int| 0u8),
            m.write_queue@.len() == 0,
    {
        let mut data: Vec<u8> = Vec::new();
        let mut k: usize = 0;
        while k < size
            invariant
                k <= size,
                data@ == Seq::new(k as nat, |i: int| 0u8),
            decreases size - k,
        {
            data.push(0);
            k = k + 1;
            proof {
                assert(data@ =~= Seq::new(k as nat, |i: int| 0u8));
            }
        }
        Memory { data, write_queue: VecDeque::new() }
    }

    /// Memory size in bytes.
    pub fn size(&self) -> (n: usize)
        ensures
            n == self.spec_size(),
    {
        self.data.len()
    }

    /// Writes the low `s` bytes of `data` little-endian at `loc`.  Fails,
    /// changing nothing, iff the range ends out of bounds.
    pub fn write(&mut self, loc: usize, data: u32, s: Size) -> (r: Result<(), MemError>)
        requires
            old(self).wf(),
        ensures
            final(self).wf(),
            final(self).write_queue@ == old(self).write_queue@,
            loc + s.spec_width() <= old(self).data@.len() ==> r == Ok::<(), MemError>(())
                && final(self).data@ == store_bytes(old(self).data@, loc as int, data, s),
            loc + s.spec_width() > old(self).data@.len() ==> r == Err::<(), MemError>(
                MemError::OutOfBounds,
            ) && final(self).data@ == old(self).data@,
    {
        let w = s.width();
        let n = self.data.len();
        if loc >= n || n - loc < w {
            return Err(MemError::OutOfBounds);
        }
        let mut k: usize = 0;
        while k < w
            invariant
                k <= w,
                w == s.spec_width(),
                loc + w <= n,
                n == self.data@.len(),
                self.wf(),
                self.write_queue@ == old(self).write_queue@,
                self.data@.len() == old(self).data@.len(),
                forall|i: int| 0 <= i < self.data@.len()
                    ==> #[trigger] self.data@[i] == if loc <= i < loc + k {
                        word::byte_of(data, i - loc)
                    } else {
                        old(self).data@[i]
                    },
            decreases w - k,
        {
            let b = word::to_le_byte(data, k);
            self.data.set(loc + k, b);
            k = k + 1;
        }
        proof {
            assert(self.data@ =~= store_bytes(old(self).data@, loc as int, data, s));
        }
        Ok(())
    }

    /// Reads a zero-extended value of width `s` little-endian from `loc`.
    /// Fails iff the range ends out of bounds.
    pub fn read(&self, loc: usize, s: Size) -> (r: Result<u32, MemError>)
        ensures
            loc + s.spec_width() <= self.data@.len() ==> r == Ok::<u32, MemError>(
                read_val(self.data@, loc as int, s),
            ),
            loc + s.spec_width() > self.data@.len() ==> r == Err::<u32, MemError>(
                MemError::OutOfBounds,
            ),
    {
        let w = s.width();
        let n = self.data.len();
        if loc >= n || n - loc < w {
            return Err(MemError::OutOfBounds);
        }
        match s {
            Size::BYTE => Ok(self.data[loc] as u32),
            Size::HALF => Ok(word::from_le_half(self.data[loc], self.data[loc + 1])),
            Size::WORD => Ok(
                word::from_le_bytes(
                    self.data[loc],
                    self.data[loc + 1],
                    self.data[loc + 2],
                    self.data[loc + 3],
                ),
            ),
        }
    }

    /// Reads one instruction word (always word-wide, zero-extended).
    pub fn read_instr(&self, loc: usize) -> (r: Result<u32, MemError>)
        ensures
            loc + 4 <= self.data@.len() ==> r == Ok::<u32, MemError>(
                read_val(self.data@, loc as int, Size::WORD),
            ),
            loc + 4 > self.data@.len() ==> r == Err::<u32, MemError>(MemError::OutOfBounds),
    {
        self.read(loc, Size::WORD)
    }

    /// Reads a value of width `s` from `loc` and sign-extends it to 32 bits.
    /// Fails iff the range ends out of bounds.
    pub fn read_signed(&self, loc: usize, s: Size) -> (r: Result<i32, MemError>)
        ensures
            loc + s.spec_width() <= self.data@.len() ==> r == Ok::<i32, MemError>(
                read_val_signed(self.data@, loc as int, s),
            ),
            loc + s.spec_width() > self.data@.len() ==> r == Err::<i32, MemError>(
                MemError::OutOfBounds,
            ),
    {
        let w = s.width();
        let n = self.data.len();
        if loc >= n || n - loc < w {
            return Err(MemError::OutOfBounds);
        }
        match s {
            Size::BYTE => Ok((#[verifier::truncate] (self.data[loc] as i8)) as i32),
            Size::HALF => {
                let h = word::from_le_half(self.data[loc], self.data[loc + 1]);
                proof {
                    word::lemma_bytes_word_roundtrip(
                        self.data@[loc as int],
                        self.data@[loc as int + 1],
                        0,
                        0,
                    );
                }
                Ok((#[verifier::truncate] ((#[verifier::truncate] (h as u16)) as i16)) as i32)
            },
            Size::WORD => {
                let v = word::from_le_bytes(
                    self.data[loc],
                    self.data[loc + 1],
                    self.data[loc + 2],
                    self.data[loc + 3],
                );
                Ok(word::to_signed(v))
            },
        }
    }

    /// Appends a store to the pending FIFO without touching the bytes.
    /// Fails, changing nothing, iff the range ends out of bounds.
    pub fn queue_write(&mut self, loc: usize, data: u32, s: Size) -> (r: Result<(), MemError>)
        requires
            old(self).wf(),
        ensures
            final(self).wf(),
            final(self).data@ == old(self).data@,
            loc + s.spec_width() <= old(self).data@.len() ==> r == Ok::<(), MemError>(())
                && final(self).write_queue@ == old(self).write_queue@.push((loc, data, s)),
            loc + s.spec_width() > old(self).data@.len() ==> r == Err::<(), MemError>(
                MemError::OutOfBounds,
            ) && final(self).write_queue@ == old(self).write_queue@,
    {
        let w = s.width();
        let n = self.data.len();
        if loc >= n || n - loc < w {
            return Err(MemError::OutOfBounds);
        }
        self.write_queue.push_back((loc, data, s));
        Ok(())
    }

    /// Pops the oldest pending store and applies it to the bytes.  Fails,
    /// changing nothing, iff the FIFO is empty; an applied store never fails
    /// on bounds because queuing already checked them.
    pub fn complete_write(&mut self) -> (r: Result<(), MemError>)
        requires
            old(self).wf(),
        ensures
            final(self).wf(),
            old(self).write_queue@.len() == 0 ==> r == Err::<(), MemError>(
                MemError::NoPendingStore,
            ) && final(self).data@ == old(self).data@
                && final(self).write_queue@ == old(self).write_queue@,
            old(self).write_queue@.len() > 0 ==> r == Ok::<(), MemError>(()) && ({
                let (loc, v, s) = old(self).write_queue@[0];
                final(self).data@ == store_bytes(old(self).data@, loc as int, v, s)
                    && final(self).write_queue@ == old(self).write_queue@.subrange(
                        1,
                        old(self).write_queue@.len() as int,
                    )
            }),
    {
        match self.write_queue.pop_front() {
            Some((loc, data, sz)) => {
                let r = self.write(loc, data, sz);
                proof {
                    assert(r is Ok);
                }
                r
            },
            None => Err(MemError::NoPendingStore),
        }
    }
}

/// Storing a value and reading it back at the same address yields the value,
/// truncated to the width of the store: the full value for a word, the low
/// halfword or byte for the shorter widths.
pub proof fn lemma_store_read_roundtrip(mem: Seq<u8>, loc: int, v: u32, s: Size)
    requires
        0 <= loc,
        loc + s.spec_width() <= mem.len(),
    ensures
        read_val(store_bytes(mem, loc, v, s), loc, s) == match s {
            Size::WORD => v,
            Size::HALF => v & 0xffff,
            Size::BYTE => v & 0xff,
        },
{
    word::lemma_word_bytes_roundtrip(v);
}

} // verus!
