//! The shared program state the drivers execute against: register file,
//! memory and run status, together with its ghost machine-level view.

use vstd::prelude::*;
use crate::mem;
use crate::reg::Register;
use crate::word;

verus! {

/// Exception kinds a run can end with.
#[derive(Clone, Copy, Debug, PartialEq, Eq, Structural)]
pub enum Exceptions {
    /// A memory access ended out of bounds.
    Mem,
    /// A fetched word decodes to no implemented instruction, or to one of
    /// the recognized-but-unimplemented system operations.
    Decode,
}

/// Run status of a driver.
#[derive(Clone, Copy, Debug, PartialEq, Eq, Structural)]
pub enum Status {
    Running,
    Done,
    Exception(Exceptions),
}

/// The halt sentinel word.
pub const HALT: u32 = 0xfeed_feed;

/// The architectural machine state, as mathematics: effective register
/// values, program counter, memory bytes, and status.
#[verifier::ext_equal]
pub struct MachineView {
    pub regs: Seq<u32>,
    pub pc: u32,
    pub mem: Seq<u8>,
    pub status: Status,
}

/// The program state a driver owns for a run.
pub struct ProgramState {
    pub regs: Register,
    pub mem: mem::Memory,
    pub status: Status,
}

impl ProgramState {
    /// The register file has its 32 entries, entry 0 pinned to zero, and
    /// every queued store fits in memory.
    pub open spec fn wf(self) -> bool {
        &&& self.regs.wf()
        &&& self.regs.data@.len() == 32
        &&& self.mem.wf()
    }

    /// No staged register write, staged program counter, or pending store
    /// is in flight: reads observe committed state only.
    pub open spec fn clean(self) -> bool {
        &&& self.regs.unwritten@.len() == 0
        &&& self.regs.pending_pc is None
        &&& self.mem.write_queue@.len() == 0
    }

    /// The effective register values: what a read of each register
    /// observes, staged writes included.
    pub open spec fn regs_view(self) -> Seq<u32> {
        Seq::new(self.regs.data@.len(), |i: int| self.regs.read_spec(i))
    }

    /// The architectural view of the state.
    pub open spec fn view(self) -> MachineView {
        MachineView {
            regs: self.regs_view(),
            pc: self.regs.pc_read_spec(),
            mem: self.mem.data@,
            status: self.status,
        }
    }

    /// Sign extension: the signed reading of a register value.
    pub fn sx(&self, reg: u32) -> (r: i32)
        ensures
            r == reg as i32,
            r as int == word::sx32(reg),
    {
        word::to_signed(reg)
    }

    /// Zero extension: the unsigned reading of a register value.
    pub fn zx(&self, reg: u32) -> (r: u32)
        ensures
            r == reg,
    {
        reg
    }

    /// A fresh state over the given memory: 32 zeroed registers, counter
    /// zero, running.
    pub fn new(m: mem::Memory) -> (ps: ProgramState)
        requires
            m.wf(),
            m.write_queue@.len() == 0,
        ensures
            ps.wf(),
            ps.clean(),
            ps.regs.data@ == Seq::new(32, |i: int| 0u32),
            ps.regs.pc == 0,
            ps.mem == m,
            ps.status == Status::Running,
    {
        ProgramState { regs: Register::new(32), mem: m, status: Status::Running }
    }
}

} // verus!
