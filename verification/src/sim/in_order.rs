//! The in-order pipelined driver: a five-slot pipeline processed from
//! writeback down to decode each tick, so older instructions retire before
//! newer ones advance.  Control transfers are resolved at decode and
//! re-steer fetch through the staged program counter; results are staged
//! into the register pending FIFO (which doubles as operand forwarding)
//! and retire at writeback; stores are queued at the memory stage and
//! drained at writeback.  Once the halt sentinel is fetched, fetch
//! freezes while the instructions in flight retire.

use vstd::prelude::*;
use crate::instr::{self, IInstr, InstrType, RInstr, UInstr, HALT_VAL};
use crate::kernel;
use crate::mem::{read_val, read_val_signed, store_bytes, Size};
use crate::program_state::{Exceptions, ProgramState, Status};
use crate::reg::last_write;
use crate::word;

verus! {

/// One pipeline slot: empty, an exception flowing to writeback, or a raw
/// instruction word.
#[derive(Clone, Copy, Debug, PartialEq, Eq, Structural)]
pub enum PipelineEntry {
    Empty,
    Exc(Exceptions),
    Instr(u32),
}

/// The five pipeline stages.
#[derive(Clone, Copy, Debug, PartialEq, Eq, Structural)]
pub enum Phases {
    IF,
    ID,
    EX,
    MEM,
    WB,
}

/// The five pipeline slots, one per stage.
#[derive(Clone, Copy, Debug, PartialEq, Eq, Structural)]
pub struct Pipeline {
    pub s_if: PipelineEntry,
    pub s_id: PipelineEntry,
    pub s_ex: PipelineEntry,
    pub s_mem: PipelineEntry,
    pub s_wb: PipelineEntry,
}

impl Pipeline {
    /// An all-empty pipeline.
    pub fn new() -> (p: Pipeline)
        ensures
            p == spec_empty_pipeline(),
    {
        Pipeline {
            s_if: PipelineEntry::Empty,
            s_id: PipelineEntry::Empty,
            s_ex: PipelineEntry::Empty,
            s_mem: PipelineEntry::Empty,
            s_wb: PipelineEntry::Empty,
        }
    }

    /// The slot of a stage.
    pub open spec fn spec_slot(self, phase: Phases) -> PipelineEntry {
        match phase {
            Phases::IF => self.s_if,
            Phases::ID => self.s_id,
            Phases::EX => self.s_ex,
            Phases::MEM => self.s_mem,
            Phases::WB => self.s_wb,
        }
    }

    /// The pipeline with one stage's slot replaced.
    pub open spec fn spec_with_slot(self, phase: Phases, e: PipelineEntry) -> Pipeline {
        match phase {
            Phases::IF => Pipeline { s_if: e, ..self },
            Phases::ID => Pipeline { s_id: e, ..self },
            Phases::EX => Pipeline { s_ex: e, ..self },
            Phases::MEM => Pipeline { s_mem: e, ..self },
            Phases::WB => Pipeline { s_wb: e, ..self },
        }
    }

    /// Reads the slot of a stage.
    pub fn slot(&self, phase: Phases) -> (e: PipelineEntry)
        ensures
            e == self.spec_slot(phase),
    {
        match phase {
            Phases::IF => self.s_if,
            Phases::ID => self.s_id,
            Phases::EX => self.s_ex,
            Phases::MEM => self.s_mem,
            Phases::WB => self.s_wb,
        }
    }

    /// Replaces the slot of a stage.
    pub fn set_slot(&mut self, phase: Phases, e: PipelineEntry)
        ensures
            *final(self) == old(self).spec_with_slot(phase, e),
    {
        match phase {
            Phases::IF => self.s_if = e,
            Phases::ID => self.s_id = e,
            Phases::EX => self.s_ex = e,
            Phases::MEM => self.s_mem = e,
            Phases::WB => self.s_wb = e,
        }
    }

    /// The pipeline after one tick's slot shift: each entry moves one
    /// stage onward and an empty slot enters at fetch.
    pub open spec fn spec_shift(self) -> Pipeline {
        Pipeline {
            s_if: PipelineEntry::Empty,
            s_id: self.s_if,
            s_ex: self.s_id,
            s_mem: self.s_ex,
            s_wb: self.s_mem,
        }
    }

    /// Shifts the slots one stage onward.
    pub fn shift(&mut self)
        ensures
            *final(self) == old(self).spec_shift(),
    {
        self.s_wb = self.s_mem;
        self.s_mem = self.s_ex;
        self.s_ex = self.s_id;
        self.s_id = self.s_if;
        self.s_if = PipelineEntry::Empty;
    }

    /// Whether the halt sentinel is in flight: once it is, fetch freezes.
    pub open spec fn spec_done(self) -> bool {
        ||| self.s_if == PipelineEntry::Instr(HALT_VAL)
        ||| self.s_id == PipelineEntry::Instr(HALT_VAL)
        ||| self.s_ex == PipelineEntry::Instr(HALT_VAL)
        ||| self.s_mem == PipelineEntry::Instr(HALT_VAL)
        ||| self.s_wb == PipelineEntry::Instr(HALT_VAL)
    }

    /// Decides `spec_done`.
    pub fn done(&self) -> (d: bool)
        ensures
            d == self.spec_done(),
    {
        self.s_if == PipelineEntry::Instr(HALT_VAL) || self.s_id == PipelineEntry::Instr(HALT_VAL)
            || self.s_ex == PipelineEntry::Instr(HALT_VAL) || self.s_mem == PipelineEntry::Instr(
            HALT_VAL,
        ) || self.s_wb == PipelineEntry::Instr(HALT_VAL)
    }
}

/// The staged program state a pipeline tick works on, as mathematics:
/// committed registers, the staged-write FIFO, committed and staged
/// program counter, memory bytes, the pending-store FIFO, and status.
#[verifier::ext_equal]
pub struct PipeView {
    pub committed: Seq<u32>,
    pub staged: Seq<(usize, u32)>,
    pub pc: u32,
    pub staged_pc: Option<u32>,
    pub mem: Seq<u8>,
    pub store_queue: Seq<(usize, u32, Size)>,
    pub status: Status,
}

impl ProgramState {
    /// The staged view of the state.
    pub open spec fn pview(self) -> PipeView {
        PipeView {
            committed: self.regs.data@,
            staged: self.regs.unwritten@,
            pc: self.regs.pc,
            staged_pc: self.regs.pending_pc,
            mem: self.mem.data@,
            store_queue: self.mem.write_queue@,
            status: self.status,
        }
    }
}

/// What a read of register `i` observes in a staged view: zero for entry
/// 0, else the newest staged write, else the committed value.
pub open spec fn pv_read(pv: PipeView, i: int) -> u32 {
    if i == 0 {
        0
    } else {
        match last_write(pv.staged, i) {
            Some(v) => v,
            None => pv.committed[i],
        }
    }
}

/// The program counter a fetch observes in a staged view.
pub open spec fn pv_pc_read(pv: PipeView) -> u32 {
    match pv.staged_pc {
        Some(v) => v,
        None => pv.pc,
    }
}

/// The view with a write of `v` to `rd` staged; entry 0 is discarded.
pub open spec fn pv_stage(pv: PipeView, rd: u32, v: u32) -> PipeView {
    if rd == 0 {
        pv
    } else {
        PipeView { staged: pv.staged.push((rd as usize, v)), ..pv }
    }
}

/// The view after the oldest staged write for a writing instruction
/// retires: nothing for destination 0, else the front of the FIFO is
/// committed.
pub open spec fn pv_writeback(pv: PipeView, rd: u32) -> PipeView {
    if rd == 0 || pv.staged.len() == 0 {
        pv
    } else {
        let (idx, v) = pv.staged[0];
        PipeView {
            committed: pv.committed.update(idx as int, v),
            staged: pv.staged.subrange(1, pv.staged.len() as int),
            ..pv
        }
    }
}

/// The view after the staged program counter retires, if one is staged.
pub open spec fn pv_retire_pc(pv: PipeView) -> PipeView {
    match pv.staged_pc {
        Some(v) => PipeView { pc: v, staged_pc: None, ..pv },
        None => pv,
    }
}

/// The decode-stage duties: control transfers are evaluated here and
/// re-steer fetch through the staged program counter (the observed
/// counter at decode is the instruction's address plus one word, so the
/// link value is the observed counter itself); the counter-relative upper
/// immediate is computed here, where its address is still known; the
/// recognized-but-unimplemented system operations become a decode
/// exception in the slot.
pub open spec fn spec_id_phase(pv: PipeView, ins: InstrType, e: PipelineEntry) -> (
    PipeView,
    PipelineEntry,
) {
    match ins {
        InstrType::I { var: IInstr::JALR, rs1, rd, sx_imm, .. } => {
            let curr = pv_pc_read(pv);
            let target = word::word_offset(pv_read(pv, rs1 as int), sx_imm) & 0xffff_fffe;
            (pv_stage(PipeView { staged_pc: Some(target), ..pv }, rd, curr), e)
        },
        InstrType::B { var, rs1, rs2, imm } => {
            if kernel::spec_branch_taken(var, pv_read(pv, rs1 as int), pv_read(pv, rs2 as int)) {
                let target = word::wrap_sub(word::word_offset(pv_pc_read(pv), imm), 4);
                (PipeView { staged_pc: Some(target), ..pv }, e)
            } else {
                (pv, e)
            }
        },
        InstrType::J { rd, offset, .. } => {
            let curr = pv_pc_read(pv);
            let target = word::wrap_sub(word::word_offset(curr, offset), 4);
            (PipeView { staged_pc: Some(target), ..pv_stage(pv, rd, curr) }, e)
        },
        InstrType::U { var: UInstr::AUIPC, rd, imm } => {
            let base = word::wrap_sub(pv_pc_read(pv), 4);
            (pv_stage(pv, rd, word::wrap_add(base, imm)), e)
        },
        InstrType::I { var, .. } => {
            if kernel::spec_is_system(var) {
                (pv, PipelineEntry::Exc(Exceptions::Decode))
            } else {
                (pv, e)
            }
        },
        _ => (pv, e),
    }
}

/// The execute-stage duties: the arithmetic, comparison, logical and
/// shift operations, and the plain upper immediate, staged into the
/// register FIFO.
pub open spec fn spec_ex_phase(pv: PipeView, ins: InstrType) -> PipeView {
    match ins {
        InstrType::R { var, rs1, rs2, rd } => {
            let a = pv_read(pv, rs1 as int);
            let b = match var {
                RInstr::SLLI => rs2,
                RInstr::SRLI => rs2,
                RInstr::SRAI => rs2,
                _ => pv_read(pv, rs2 as int),
            };
            pv_stage(pv, rd, kernel::spec_alu_r(var, a, b))
        },
        InstrType::I { var, rs1, rd, sx_imm, zx_imm } => {
            match kernel::spec_alu_i(var, pv_read(pv, rs1 as int), sx_imm, zx_imm) {
                Some(v) => pv_stage(pv, rd, v),
                None => pv,
            }
        },
        InstrType::U { var: UInstr::LUI, rd, imm } => pv_stage(pv, rd, imm),
        _ => pv,
    }
}

/// The memory-stage duties: loads read the bytes and stage the extended
/// value; stores are queued; a memory fault replaces the slot with a
/// memory exception.
pub open spec fn spec_mem_phase(pv: PipeView, ins: InstrType, e: PipelineEntry) -> (
    PipeView,
    PipelineEntry,
) {
    match ins {
        InstrType::I { var, rs1, rd, sx_imm, .. } => {
            match kernel::spec_load_shape(var) {
                Some((size, signed)) => {
                    let addr = word::word_offset(pv_read(pv, rs1 as int), sx_imm);
                    if addr + size.spec_width() <= pv.mem.len() {
                        let v = if signed {
                            read_val_signed(pv.mem, addr as int, size) as u32
                        } else {
                            read_val(pv.mem, addr as int, size)
                        };
                        (pv_stage(pv, rd, v), e)
                    } else {
                        (pv, PipelineEntry::Exc(Exceptions::Mem))
                    }
                },
                None => (pv, e),
            }
        },
        InstrType::S { var, rs1, rs2, imm } => {
            let addr = word::wrap_add(pv_read(pv, rs1 as int), imm);
            let size = kernel::spec_store_size(var);
            if addr + size.spec_width() <= pv.mem.len() {
                (
                    PipeView {
                        store_queue: pv.store_queue.push(
                            (addr as usize, pv_read(pv, rs2 as int), size),
                        ),
                        ..pv
                    },
                    e,
                )
            } else {
                (pv, PipelineEntry::Exc(Exceptions::Mem))
            }
        },
        _ => (pv, e),
    }
}

/// The writeback-stage duties: the halt sentinel finishes the run; a
/// store drains one pending store into the bytes; a branch retires the
/// staged counter; jumps retire both their staged link write and the
/// staged counter; every other writing format retires its staged write.
pub open spec fn spec_wb_phase(pv: PipeView, ins: InstrType) -> PipeView {
    match ins {
        InstrType::Halt => PipeView { status: Status::Done, ..pv },
        InstrType::S { .. } => {
            if pv.store_queue.len() > 0 {
                let (loc, v, s) = pv.store_queue[0];
                PipeView {
                    mem: store_bytes(pv.mem, loc as int, v, s),
                    store_queue: pv.store_queue.subrange(1, pv.store_queue.len() as int),
                    ..pv
                }
            } else {
                pv
            }
        },
        InstrType::B { .. } => pv_retire_pc(pv),
        InstrType::J { rd, .. } => pv_retire_pc(pv_writeback(pv, rd)),
        InstrType::I { var: IInstr::JALR, rd, .. } => pv_retire_pc(pv_writeback(pv, rd)),
        InstrType::R { rd, .. } => pv_writeback(pv, rd),
        InstrType::I { rd, .. } => pv_writeback(pv, rd),
        InstrType::U { rd, .. } => pv_writeback(pv, rd),
    }
}

/// One stage's whole duty on its slot: an empty slot does nothing, an
/// exception surfaces only at writeback, an undecodable word becomes a
/// decode exception at decode, and a decoded instruction performs the
/// stage's duties.
pub open spec fn spec_run_phase(pv: PipeView, e: PipelineEntry, phase: Phases) -> (
    PipeView,
    PipelineEntry,
) {
    match e {
        PipelineEntry::Empty => (pv, e),
        PipelineEntry::Exc(x) => if phase is WB {
            (PipeView { status: Status::Exception(x), ..pv }, e)
        } else {
            (pv, e)
        },
        PipelineEntry::Instr(raw) => match instr::spec_decode(raw) {
            None => if phase is ID {
                (pv, PipelineEntry::Exc(Exceptions::Decode))
            } else {
                (pv, e)
            },
            Some(ins) => match phase {
                Phases::IF => (pv, e),
                Phases::ID => spec_id_phase(pv, ins, e),
                Phases::EX => (spec_ex_phase(pv, ins), e),
                Phases::MEM => spec_mem_phase(pv, ins, e),
                Phases::WB => (spec_wb_phase(pv, ins), e),
            },
        },
    }
}

/// The fetch slot for the next tick: frozen once the halt sentinel is in
/// flight, else the word at the observed counter, or a memory exception
/// when the fetch is out of bounds.
pub open spec fn spec_fetch_slot(pv: PipeView, p: Pipeline) -> PipelineEntry {
    if p.spec_done() {
        PipelineEntry::Empty
    } else if pv_pc_read(pv) + 4 <= pv.mem.len() {
        PipelineEntry::Instr(read_val(pv.mem, pv_pc_read(pv) as int, Size::WORD))
    } else {
        PipelineEntry::Exc(Exceptions::Mem)
    }
}

/// The view with the observed counter advanced one word: the staged slot
/// if occupied, else the committed counter.
pub open spec fn pv_inc_pc(pv: PipeView) -> PipeView {
    match pv.staged_pc {
        Some(v) => PipeView { staged_pc: Some(word::wrap_add(v, 4)), ..pv },
        None => PipeView { pc: word::wrap_add(pv.pc, 4), ..pv },
    }
}

/// One pipeline tick: the stages run from writeback down to decode, fetch
/// fills its slot, the counter advances unless the halt sentinel is in
/// flight, and the slots shift one stage onward.
pub open spec fn spec_tick(pv: PipeView, p: Pipeline) -> (PipeView, Pipeline) {
    let (pv1, e_wb) = spec_run_phase(pv, p.s_wb, Phases::WB);
    let p1 = p.spec_with_slot(Phases::WB, e_wb);
    let (pv2, e_mem) = spec_run_phase(pv1, p1.s_mem, Phases::MEM);
    let p2 = p1.spec_with_slot(Phases::MEM, e_mem);
    let (pv3, e_ex) = spec_run_phase(pv2, p2.s_ex, Phases::EX);
    let p3 = p2.spec_with_slot(Phases::EX, e_ex);
    let (pv4, e_id) = spec_run_phase(pv3, p3.s_id, Phases::ID);
    let p4 = p3.spec_with_slot(Phases::ID, e_id);
    let p5 = p4.spec_with_slot(Phases::IF, spec_fetch_slot(pv4, p4));
    let pv5 = if p5.spec_done() {
        pv4
    } else {
        pv_inc_pc(pv4)
    };
    (pv5, p5.spec_shift())
}

/// The pipeline run `n` ticks onward, stopping once the status leaves
/// `Running`.
pub open spec fn spec_pipe_run(pv: PipeView, p: Pipeline, n: nat) -> (PipeView, Pipeline)
    decreases n,
{
    if n == 0 || !(pv.status is Running) {
        (pv, p)
    } else {
        let (pv2, p2) = spec_tick(pv, p);
        spec_pipe_run(pv2, p2, (n - 1) as nat)
    }
}

/// The all-empty pipeline a run starts with.
pub open spec fn spec_empty_pipeline() -> Pipeline {
    Pipeline {
        s_if: PipelineEntry::Empty,
        s_id: PipelineEntry::Empty,
        s_ex: PipelineEntry::Empty,
        s_mem: PipelineEntry::Empty,
        s_wb: PipelineEntry::Empty,
    }
}

impl ProgramState {
    /// The decode-stage duties of `ins`; returns the slot's new entry.
    fn id_phase(&mut self, ins: InstrType, e: PipelineEntry) -> (r: PipelineEntry)
        requires
            old(self).wf(),
            kernel::fields_ok(ins),
        ensures
            final(self).wf(),
            (final(self).pview(), r) == spec_id_phase(old(self).pview(), ins, e),
    {
        match ins {
            InstrType::I { var: IInstr::JALR, rs1, rd, sx_imm, .. } => {
                let curr = self.regs.pc_read();
                let a = self.regs.read(rs1);
                let target = word::offset(a, sx_imm) & 0xffff_fffe;
                self.regs.stage_pc(target);
                self.regs.assign(rd, curr);
                e
            },
            InstrType::B { var, rs1, rs2, imm } => {
                let a = self.regs.read(rs1);
                let b = self.regs.read(rs2);
                if kernel::branch_taken(var, a, b) {
                    let target = word::offset(self.regs.pc_read(), imm).wrapping_sub(4);
                    self.regs.stage_pc(target);
                }
                e
            },
            InstrType::J { rd, offset, .. } => {
                let curr = self.regs.pc_read();
                self.regs.assign(rd, curr);
                let target = word::offset(curr, offset).wrapping_sub(4);
                self.regs.stage_pc(target);
                e
            },
            InstrType::U { var: UInstr::AUIPC, rd, imm } => {
                let base = self.regs.pc_read().wrapping_sub(4);
                self.regs.assign(rd, base.wrapping_add(imm));
                e
            },
            InstrType::I { var, .. } => {
                if kernel::is_system(var) {
                    PipelineEntry::Exc(Exceptions::Decode)
                } else {
                    e
                }
            },
            _ => e,
        }
    }

    /// The execute-stage duties of `ins`.
    fn ex_phase(&mut self, ins: InstrType)
        requires
            old(self).wf(),
            kernel::fields_ok(ins),
        ensures
            final(self).wf(),
            final(self).pview() == spec_ex_phase(old(self).pview(), ins),
    {
        match ins {
            InstrType::R { var, rs1, rs2, rd } => {
                let a = self.regs.read(rs1);
                let b = match var {
                    RInstr::SLLI => rs2,
                    RInstr::SRLI => rs2,
                    RInstr::SRAI => rs2,
                    _ => self.regs.read(rs2),
                };
                let v = kernel::alu_r(var, a, b);
                self.regs.assign(rd, v);
            },
            InstrType::I { var, rs1, rd, sx_imm, zx_imm } => {
                let a = self.regs.read(rs1);
                match kernel::alu_i(var, a, sx_imm, zx_imm) {
                    Some(v) => {
                        self.regs.assign(rd, v);
                    },
                    None => {},
                }
            },
            InstrType::U { var: UInstr::LUI, rd, imm } => {
                self.regs.assign(rd, imm);
            },
            _ => {},
        }
    }

    /// The memory-stage duties of `ins`; returns the slot's new entry.
    fn mem_phase(&mut self, ins: InstrType, e: PipelineEntry) -> (r: PipelineEntry)
        requires
            old(self).wf(),
            kernel::fields_ok(ins),
        ensures
            final(self).wf(),
            (final(self).pview(), r) == spec_mem_phase(old(self).pview(), ins, e),
    {
        match ins {
            InstrType::I { var, rs1, rd, sx_imm, .. } => {
                let (size, signed, is_load) = match var {
                    IInstr::LB => (Size::BYTE, true, true),
                    IInstr::LH => (Size::HALF, true, true),
                    IInstr::LW => (Size::WORD, false, true),
                    IInstr::LBU => (Size::BYTE, false, true),
                    IInstr::LHU => (Size::HALF, false, true),
                    _ => (Size::WORD, false, false),
                };
                if !is_load {
                    return e;
                }
                let a = self.regs.read(rs1);
                let loc = word::as_usize(word::offset(a, sx_imm));
                if signed {
                    match self.mem.read_signed(loc, size) {
                        Ok(v) => {
                            self.regs.assign(rd, word::from_signed(v));
                            e
                        },
                        Err(_) => PipelineEntry::Exc(Exceptions::Mem),
                    }
                } else {
                    match self.mem.read(loc, size) {
                        Ok(v) => {
                            self.regs.assign(rd, v);
                            e
                        },
                        Err(_) => PipelineEntry::Exc(Exceptions::Mem),
                    }
                }
            },
            InstrType::S { var, rs1, rs2, imm } => {
                let a = self.regs.read(rs1);
                let value = self.regs.read(rs2);
                let addr = a.wrapping_add(imm);
                match self.mem.queue_write(word::as_usize(addr), value, kernel::store_size(var)) {
                    Ok(_) => e,
                    Err(_) => PipelineEntry::Exc(Exceptions::Mem),
                }
            },
            _ => e,
        }
    }

    /// The writeback-stage duties of `ins`.
    fn wb_phase(&mut self, ins: InstrType)
        requires
            old(self).wf(),
        ensures
            final(self).wf(),
            final(self).pview() == spec_wb_phase(old(self).pview(), ins),
    {
        match ins {
            InstrType::Halt => {
                self.status = Status::Done;
            },
            InstrType::S { .. } => {
                let _ = self.mem.complete_write();
            },
            InstrType::B { .. } => {
                let _ = self.regs.retire_pc();
            },
            InstrType::J { rd, .. } => {
                let _ = self.regs.writeback(rd);
                let _ = self.regs.retire_pc();
            },
            InstrType::I { var: IInstr::JALR, rd, .. } => {
                let _ = self.regs.writeback(rd);
                let _ = self.regs.retire_pc();
            },
            InstrType::R { rd, .. } => {
                let _ = self.regs.writeback(rd);
            },
            InstrType::I { rd, .. } => {
                let _ = self.regs.writeback(rd);
            },
            InstrType::U { rd, .. } => {
                let _ = self.regs.writeback(rd);
            },
        }
    }

    /// Runs one stage of the pipeline on its slot.  The fetch stage has
    /// its own entry point.
    pub fn run_phase(&mut self, p: &mut Pipeline, phase: Phases)
        requires
            old(self).wf(),
            !(phase is IF),
        ensures
            final(self).wf(),
            ({
                let (pv2, e2) = spec_run_phase(old(self).pview(), old(p).spec_slot(phase), phase);
                final(self).pview() == pv2 && *final(p) == old(p).spec_with_slot(phase, e2)
            }),
    {
        let entry = p.slot(phase);
        let raw = match entry {
            PipelineEntry::Empty => {
                return;
            },
            PipelineEntry::Exc(x) => {
                match phase {
                    Phases::WB => {
                        self.status = Status::Exception(x);
                    },
                    _ => {},
                }
                return;
            },
            PipelineEntry::Instr(raw) => raw,
        };
        let ins = match instr::decode(raw) {
            Ok(ins) => ins,
            Err(_) => {
                match phase {
                    Phases::ID => {
                        p.set_slot(phase, PipelineEntry::Exc(Exceptions::Decode));
                    },
                    _ => {},
                }
                return;
            },
        };
        proof {
            kernel::lemma_decode_fields_ok(raw);
        }
        match phase {
            Phases::IF => {
                proof {
                    assert(false);
                }
            },
            Phases::ID => {
                let e2 = self.id_phase(ins, entry);
                p.set_slot(phase, e2);
            },
            Phases::EX => {
                self.ex_phase(ins);
            },
            Phases::MEM => {
                let e2 = self.mem_phase(ins, entry);
                p.set_slot(phase, e2);
            },
            Phases::WB => {
                self.wb_phase(ins);
            },
        }
    }

    /// The fetch stage: fills the fetch slot from the observed counter,
    /// unless the halt sentinel is already in flight.
    pub fn run_if_phase(&self, p: &mut Pipeline)
        ensures
            *final(p) == old(p).spec_with_slot(Phases::IF, spec_fetch_slot(self.pview(), *old(p))),
    {
        let e = if p.done() {
            PipelineEntry::Empty
        } else {
            match self.mem.read_instr(word::as_usize(self.regs.pc_read())) {
                Ok(raw) => PipelineEntry::Instr(raw),
                Err(_) => PipelineEntry::Exc(Exceptions::Mem),
            }
        };
        p.set_slot(Phases::IF, e);
    }
}

/// One tick of the pipelined driver.
pub fn tick(ps: &mut ProgramState, p: &mut Pipeline)
    requires
        old(ps).wf(),
    ensures
        final(ps).wf(),
        (final(ps).pview(), *final(p)) == spec_tick(old(ps).pview(), *old(p)),
{
    ps.run_phase(p, Phases::WB);
    ps.run_phase(p, Phases::MEM);
    ps.run_phase(p, Phases::EX);
    ps.run_phase(p, Phases::ID);
    ps.run_if_phase(p);
    if !p.done() {
        ps.regs.inc_pc();
    }
    p.shift();
}

/// Runs the pipelined driver for at most `fuel` ticks: the result is
/// exactly the pipeline semantics iterated until the run stops or the
/// ticks are spent.
pub fn in_order(ps: ProgramState, fuel: u64) -> (r: ProgramState)
    requires
        ps.wf(),
    ensures
        r.wf(),
        r.pview() == spec_pipe_run(ps.pview(), spec_empty_pipeline(), fuel as nat).0,
{
    let ghost init_pv = ps.pview();
    let mut st = ps;
    let mut p = Pipeline::new();
    let mut k: u64 = 0;
    while k < fuel
        invariant
            init_pv == ps.pview(),
            st.wf(),
            k <= fuel,
            spec_pipe_run(init_pv, spec_empty_pipeline(), fuel as nat) == spec_pipe_run(
                st.pview(),
                p,
                (fuel - k) as nat,
            ),
        decreases fuel - k,
    {
        let running = match st.status {
            Status::Running => true,
            _ => false,
        };
        if !running {
            return st;
        }
        tick(&mut st, &mut p);
        k = k + 1;
    }
    st
}

} // verus!
