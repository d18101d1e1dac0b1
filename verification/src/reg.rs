//! The register file: general-purpose entries plus a program counter, with
//! a FIFO of staged (not-yet-retired) writes, in-order retirement, and a
//! single staged program-counter slot for pipeline re-steering.
//!
//! Entry 0 is permanently zero: staged and direct writes to it are
//! discarded, and every read of it returns zero.

use vstd::prelude::*;
use std::collections::VecDeque;
use crate::word;

verus! {

/// The newest staged value for register `i`, if any.
pub open spec fn last_write(q: Seq<(usize, u32)>, i: int) -> Option<u32>
    decreases q.len(),
{
    if q.len() == 0 {
        None
    } else if q.last().0 == i {
        Some(q.last().1)
    } else {
        last_write(q.drop_last(), i)
    }
}

/// If the last staged entry is not for `i`, dropping it does not change the
/// newest staged value for `i`.
pub proof fn lemma_last_write_skip(q: Seq<(usize, u32)>, i: int)
    requires
        q.len() > 0,
        q.last().0 != i,
    ensures
        last_write(q, i) == last_write(q.drop_last(), i),
{
}

/// The register file.
pub struct Register {
    /// Committed architectural values; entry 0 is pinned to zero.
    pub data: Vec<u32>,
    /// Staged register writes, oldest first.
    pub unwritten: VecDeque<(usize, u32)>,
    /// Committed program counter.
    pub pc: u32,
    /// Staged program counter, if a re-steer is in flight.
    pub pending_pc: Option<u32>,
}

impl Register {
    /// Entry 0 is committed as zero and never staged; every staged entry
    /// names an existing register.
    pub open spec fn wf(self) -> bool {
        &&& self.data@.len() >= 1
        &&& self.data@[0] == 0
        &&& forall|k: int| 0 <= k < self.unwritten@.len()
            ==> 0 < #[trigger] self.unwritten@[k].0 < self.data@.len()
    }

    /// The value a read of register `i` observes: zero for entry 0, else
    /// the newest staged write if any, else the committed value.
    pub open spec fn read_spec(self, i: int) -> u32
        recommends
            0 <= i < self.data@.len(),
    {
        if i == 0 {
            0
        } else {
            match last_write(self.unwritten@, i) {
                Some(v) => v,
                None => self.data@[i],
            }
        }
    }

    /// The program counter a fetch observes: the staged slot if occupied,
    /// else the committed counter.
    pub open spec fn pc_read_spec(self) -> u32 {
        match self.pending_pc {
            Some(v) => v,
            None => self.pc,
        }
    }

    /// A fresh file of `num_regs` zeroed registers, no staged writes, and
    /// program counter zero.
    pub fn new(num_regs: usize) -> (r: Register)
        requires
            num_regs >= 1,
        ensures
            r.wf(),
            r.data@ == Seq::new(num_regs as nat, |i: int| 0u32),
            r.unwritten@.len() == 0,
            r.pc == 0,
            r.pending_pc is None,
    {
        let mut data: Vec<u32> = Vec::new();
        let mut k: usize = 0;
        while k < num_regs
            invariant
                k <= num_regs,
                data@ == Seq::new(k as nat, |i: int| 0u32),
            decreases num_regs - k,
        {
            data.push(0);
            k = k + 1;
            proof {
                assert(data@ =~= Seq::new(k as nat, |i: int| 0u32));
            }
        }
        Register { data, unwritten: VecDeque::new(), pc: 0, pending_pc: None }
    }

    /// Reads register `i`: the newest staged value if any, else the
    /// committed value; entry 0 reads as zero.
    pub fn read(&self, i: u32) -> (v: u32)
        requires
            self.wf(),
            i < self.data@.len(),
        ensures
            v == self.read_spec(i as int),
    {
        if i == 0 {
            return 0;
        }
        let mut k: usize = self.unwritten.len();
        proof {
            assert(self.unwritten@.subrange(0, k as int) =~= self.unwritten@);
        }
        while k > 0
            invariant
                i != 0,
                k <= self.unwritten@.len(),
                last_write(self.unwritten@, i as int) == last_write(
                    self.unwritten@.subrange(0, k as int),
                    i as int,
                ),
            decreases k,
        {
            let (idx, v) = self.unwritten[k - 1];
            proof {
                assert(self.unwritten@.subrange(0, k as int).last() == self.unwritten@[
                    k - 1
                ]);
            }
            if idx == i as usize {
                proof {
                    let s = self.unwritten@.subrange(0, k as int);
                    assert(s.last() == (idx, v));
                    assert(last_write(s, i as int) == Some(v));
                }
                return v;
            }
            proof {
                lemma_last_write_skip(self.unwritten@.subrange(0, k as int), i as int);
                assert(self.unwritten@.subrange(0, k as int).drop_last() =~= self
                    .unwritten@
                    .subrange(0, k as int - 1));
            }
            k = k - 1;
        }
        proof {
            assert(self.unwritten@.subrange(0, 0) =~= Seq::<(usize, u32)>::empty());
        }
        self.data[i as usize]
    }

    /// The committed program counter.
    pub fn pc(&self) -> (v: u32)
        ensures
            v == self.pc,
    {
        self.pc
    }

    /// The program counter a fetch observes (staged slot first).
    pub fn pc_read(&self) -> (v: u32)
        ensures
            v == self.pc_read_spec(),
    {
        match self.pending_pc {
            Some(v) => v,
            None => self.pc,
        }
    }

    /// Advances the program counter by one word: the staged slot if it is
    /// occupied, else the committed counter.  Wraps modulo 2^32.
    pub fn inc_pc(&mut self)
        ensures
            final(self).data@ == old(self).data@,
            final(self).unwritten@ == old(self).unwritten@,
            old(self).pending_pc matches Some(v) ==> final(self).pending_pc == Some(
                word::wrap_add(v, 4),
            ) && final(self).pc == old(self).pc,
            old(self).pending_pc is None ==> final(self).pending_pc is None && final(self).pc
                == word::wrap_add(old(self).pc, 4),
    {
        match self.pending_pc {
            Some(v) => {
                self.pending_pc = Some(v.wrapping_add(4));
            },
            None => {
                self.pc = self.pc.wrapping_add(4);
            },
        }
    }

    /// Sets the committed program counter directly.
    pub fn assign_pc(&mut self, v: u32)
        ensures
            final(self).data@ == old(self).data@,
            final(self).unwritten@ == old(self).unwritten@,
            final(self).pending_pc == old(self).pending_pc,
            final(self).pc == v,
    {
        self.pc = v;
    }

    /// Stages a program-counter re-steer into the single pending slot,
    /// replacing any staged value.
    pub fn stage_pc(&mut self, v: u32)
        ensures
            final(self).data@ == old(self).data@,
            final(self).unwritten@ == old(self).unwritten@,
            final(self).pc == old(self).pc,
            final(self).pending_pc == Some(v),
    {
        self.pending_pc = Some(v);
    }

    /// Commits the staged program counter if the slot is occupied; reports
    /// whether a retirement occurred.
    pub fn retire_pc(&mut self) -> (b: bool)
        ensures
            final(self).data@ == old(self).data@,
            final(self).unwritten@ == old(self).unwritten@,
            final(self).pending_pc is None,
            old(self).pending_pc matches Some(v) ==> b && final(self).pc == v,
            old(self).pending_pc is None ==> !b && final(self).pc == old(self).pc,
    {
        match self.pending_pc {
            Some(v) => {
                self.pc = v;
                self.pending_pc = None;
                true
            },
            None => false,
        }
    }

    /// Writes a committed value directly, bypassing the staging FIFO; a
    /// write to entry 0 is discarded.
    pub fn force_assign(&mut self, rd: u32, v: u32)
        requires
            old(self).wf(),
            rd < old(self).data@.len(),
        ensures
            final(self).wf(),
            final(self).unwritten@ == old(self).unwritten@,
            final(self).pc == old(self).pc,
            final(self).pending_pc == old(self).pending_pc,
            rd == 0 ==> final(self).data@ == old(self).data@,
            rd != 0 ==> final(self).data@ == old(self).data@.update(rd as int, v),
    {
        if rd != 0 {
            self.data.set(rd as usize, v);
        }
    }

    /// Stages a write of `v` to register `rd`; a write to entry 0 is
    /// discarded.  Staged writes retire oldest-first via `writeback`.
    pub fn assign(&mut self, rd: u32, v: u32)
        requires
            old(self).wf(),
            rd < old(self).data@.len(),
        ensures
            final(self).wf(),
            final(self).data@ == old(self).data@,
            final(self).pc == old(self).pc,
            final(self).pending_pc == old(self).pending_pc,
            rd == 0 ==> final(self).unwritten@ == old(self).unwritten@,
            rd != 0 ==> final(self).unwritten@ == old(self).unwritten@.push((rd as usize, v)),
            rd != 0 ==> final(self).read_spec(rd as int) == v,
    {
        if rd != 0 {
            self.unwritten.push_back((rd as usize, v));
        }
    }

    /// Retires the oldest staged write, committing it to storage; reports
    /// whether a retirement occurred.  Retiring for `rd == 0` is a no-op
    /// that counts as done, matching the discard on staging.
    pub fn writeback(&mut self, rd: u32) -> (b: bool)
        requires
            old(self).wf(),
        ensures
            final(self).wf(),
            final(self).pc == old(self).pc,
            final(self).pending_pc == old(self).pending_pc,
            rd == 0 ==> b && final(self).data@ == old(self).data@ && final(self).unwritten@
                == old(self).unwritten@,
            rd != 0 && old(self).unwritten@.len() == 0 ==> !b
                && final(self).data@ == old(self).data@
                && final(self).unwritten@ == old(self).unwritten@,
            rd != 0 && old(self).unwritten@.len() > 0 ==> b && ({
                let (idx, v) = old(self).unwritten@[0];
                final(self).data@ == old(self).data@.update(idx as int, v)
                    && final(self).unwritten@ == old(self).unwritten@.subrange(
                    1,
                    old(self).unwritten@.len() as int,
                )
            }),
    {
        if rd == 0 {
            return true;
        }
        if self.unwritten.len() == 0 {
            return false;
        }
        match self.unwritten.pop_front() {
            Some((idx, v)) => {
                self.data.set(idx, v);
                true
            },
            None => false,
        }
    }
}

/// Register entry 0 is invariant: whatever has been staged or retired, a
/// read of register 0 returns zero in every well-formed file.
pub proof fn lemma_x0_always_zero(r: Register)
    requires
        r.wf(),
    ensures
        r.read_spec(0) == 0,
{
}

/// After the only staged write to `rd` retires, a read of `rd` observes
/// exactly the retired value.
pub proof fn lemma_retired_value_read(r: Register, prev: Register, rd: int, v: u32)
    requires
        prev.wf(),
        r.wf(),
        0 < rd < prev.data@.len(),
        prev.unwritten@.len() > 0,
        prev.unwritten@[0] == (rd as usize, v),
        r.data@ == prev.data@.update(rd, v),
        r.unwritten@ == prev.unwritten@.subrange(1, prev.unwritten@.len() as int),
        forall|k: int| 1 <= k < prev.unwritten@.len() ==> #[trigger] prev.unwritten@[k].0 != rd,
    ensures
        r.read_spec(rd) == v,
{
    lemma_last_write_none(r.unwritten@, rd);
}

/// The committed file after every staged write has retired, oldest
/// first.
pub open spec fn commit_all(data: Seq<u32>, q: Seq<(usize, u32)>) -> Seq<u32>
    decreases q.len(),
{
    if q.len() == 0 {
        data
    } else {
        commit_all(data.update(q[0].0 as int, q[0].1), q.subrange(1, q.len() as int))
    }
}

/// Splitting the newest-staged-value search at the front of the FIFO:
/// a later entry wins, else the front entry, else nothing.
proof fn lemma_last_write_split_front(q: Seq<(usize, u32)>, i: int)
    requires
        q.len() > 0,
    ensures
        last_write(q, i) == (match last_write(q.subrange(1, q.len() as int), i) {
            Some(v) => Some(v),
            None => if q[0].0 == i {
                Some(q[0].1)
            } else {
                None
            },
        }),
    decreases q.len(),
{
    if q.len() == 1 {
        assert(q.subrange(1, 1) =~= Seq::<(usize, u32)>::empty());
    } else {
        lemma_last_write_split_front(q.drop_last(), i);
        assert(q.drop_last().subrange(1, q.drop_last().len() as int) =~= q.subrange(
            1,
            q.len() as int,
        ).drop_last());
        assert(q.subrange(1, q.len() as int).last() == q.last());
    }
}

/// Forwarding agrees with retirement: reading register `i` through the
/// staged FIFO (the newest staged value, else the committed one)
/// observes exactly what the committed file will hold once every staged
/// write has retired in order.
pub proof fn lemma_forwarding_matches_retirement(data: Seq<u32>, q: Seq<(usize, u32)>, i: int)
    requires
        0 < i < data.len(),
        forall|k: int| 0 <= k < q.len() ==> 0 < #[trigger] q[k].0 < data.len(),
    ensures
        (match last_write(q, i) {
            Some(v) => v,
            None => data[i],
        }) == commit_all(data, q)[i],
    decreases q.len(),
{
    if q.len() > 0 {
        let q2 = q.subrange(1, q.len() as int);
        lemma_last_write_split_front(q, i);
        lemma_forwarding_matches_retirement(data.update(q[0].0 as int, q[0].1), q2, i);
    }
}

/// A staged FIFO with no entry for `i` yields no staged value for `i`.
pub proof fn lemma_last_write_none(q: Seq<(usize, u32)>, i: int)
    requires
        forall|k: int| 0 <= k < q.len() ==> #[trigger] q[k].0 != i,
    ensures
        last_write(q, i) is None,
    decreases q.len(),
{
    if q.len() > 0 {
        lemma_last_write_none(q.drop_last(), i);
    }
}

} // verus!
