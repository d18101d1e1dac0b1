//! A proved slice of the drivers' agreement: on a straight-line program
//! of register-writing instructions followed by the halt sentinel, the
//! in-order pipeline's committed state ends exactly where the sequential
//! reference semantics ends.  The proof runs a ghost model of the
//! pipeline, one tick at a time: each tick retires one instruction of the
//! sequential trace, and the staged-write FIFO holds exactly the values
//! of the instructions in flight.

use vstd::prelude::*;
use crate::instr::{self, InstrType, UInstr, HALT_VAL};
use crate::kernel;
use crate::mem::{read_val, Size};
use crate::program_state::{MachineView, Status};
use crate::sim::in_order::{
    pv_read, spec_empty_pipeline, spec_fetch_slot, spec_pipe_run, spec_run_phase, spec_tick,
    Phases, PipeView, Pipeline, PipelineEntry,
};
use crate::simulate::{spec_fetch_ok, spec_run, spec_step};
use crate::word;

verus! {

/// An instruction whose whole effect is one staged register write
/// computed at the execute stage: register-format operations,
/// immediate-format arithmetic, and the plain upper immediate.
pub open spec fn ex_class(ins: InstrType) -> bool {
    match ins {
        InstrType::R { .. } => true,
        InstrType::I { var, .. } => match var {
            instr::IInstr::ADDI => true,
            instr::IInstr::SLTI => true,
            instr::IInstr::SLTIU => true,
            instr::IInstr::XORI => true,
            instr::IInstr::ORI => true,
            instr::IInstr::ANDI => true,
            _ => false,
        },
        InstrType::U { var: UInstr::LUI, .. } => true,
        _ => false,
    }
}

/// The destination register of an execute-class instruction.
pub open spec fn ex_rd(ins: InstrType) -> u32 {
    match ins {
        InstrType::R { rd, .. } => rd,
        InstrType::I { rd, .. } => rd,
        InstrType::U { rd, .. } => rd,
        _ => 0,
    }
}

/// The value an execute-class instruction writes, as a function of the
/// register values it reads.
pub open spec fn ex_val(ins: InstrType, regs: Seq<u32>) -> u32 {
    match ins {
        InstrType::R { var, rs1, rs2, .. } => kernel::spec_alu_r(
            var,
            regs[rs1 as int],
            kernel::spec_r_operand(var, rs2, regs),
        ),
        InstrType::I { var, rs1, sx_imm, zx_imm, .. } => kernel::spec_alu_i(
            var,
            regs[rs1 as int],
            sx_imm,
            zx_imm,
        )->Some_0,
        InstrType::U { imm, .. } => imm,
        _ => 0,
    }
}

/// The instruction word at word index `k`.
pub open spec fn word_at(mem: Seq<u8>, k: int) -> u32 {
    read_val(mem, 4 * k, Size::WORD)
}

/// Whether the word at index `j` decodes to an execute-class record.
pub open spec fn decodes_to_ex(mem: Seq<u8>, j: int) -> bool {
    instr::spec_decode(word_at(mem, j)) matches Some(ins) && ex_class(ins)
}

/// A straight-line program: `H` execute-class words, then the halt
/// sentinel, all within memory and within the counter range, against a
/// fresh machine whose register 0 is zero.
pub open spec fn prog_ok(m0: MachineView, h: int) -> bool {
    &&& m0.status is Running
    &&& m0.pc == 0
    &&& m0.regs.len() == 32
    &&& m0.regs[0] == 0
    &&& 0 <= h
    &&& 4 * h + 8 <= m0.mem.len()
    &&& 4 * h + 8 < 0x1_0000_0000
    &&& (forall|j: int| 0 <= j < h ==> #[trigger] decodes_to_ex(m0.mem, j))
    &&& word_at(m0.mem, h) == HALT_VAL
}

/// One sequential step of an execute-class instruction: the destination
/// register (unless it is entry 0) takes the instruction's value, the
/// counter advances one word, and nothing else moves.
pub proof fn lemma_ex_step(m: MachineView, ins: InstrType)
    requires
        m.status is Running,
        spec_fetch_ok(m),
        instr::spec_decode(read_val(m.mem, m.pc as int, Size::WORD)) == Some(ins),
        ex_class(ins),
    ensures
        spec_step(m) == (MachineView {
            regs: if ex_rd(ins) != 0 {
                m.regs.update(ex_rd(ins) as int, ex_val(ins, m.regs))
            } else {
                m.regs
            },
            pc: word::wrap_add(m.pc, 4),
            mem: m.mem,
            status: Status::Running,
        }),
{
    assert(spec_step(m) =~= MachineView {
        regs: if ex_rd(ins) != 0 {
            m.regs.update(ex_rd(ins) as int, ex_val(ins, m.regs))
        } else {
            m.regs
        },
        pc: word::wrap_add(m.pc, 4),
        mem: m.mem,
        status: Status::Running,
    });
}

/// One sequential step of the halt sentinel: the run finishes, the
/// counter advances one word, and the registers and memory stay.
pub proof fn lemma_halt_step(m: MachineView)
    requires
        m.status is Running,
        spec_fetch_ok(m),
        read_val(m.mem, m.pc as int, Size::WORD) == HALT_VAL,
    ensures
        spec_step(m) == (MachineView {
            regs: m.regs,
            pc: word::wrap_add(m.pc, 4),
            mem: m.mem,
            status: Status::Done,
        }),
{
    assert(spec_step(m) =~= MachineView {
        regs: m.regs,
        pc: word::wrap_add(m.pc, 4),
        mem: m.mem,
        status: Status::Done,
    });
}

/// The sequential trace of a straight-line program, up to the halt: the
/// run stays live, the counter tracks the instruction index, and memory
/// never moves.
pub proof fn lemma_trace_shape(m0: MachineView, h: int, j: int)
    requires
        prog_ok(m0, h),
        0 <= j <= h,
    ensures
        spec_run(m0, j as nat).status is Running,
        spec_run(m0, j as nat).pc == 4 * j,
        spec_run(m0, j as nat).mem == m0.mem,
        spec_run(m0, j as nat).regs.len() == 32,
        spec_run(m0, j as nat).regs[0] == 0,
    decreases j,
{
    if j > 0 {
        lemma_trace_shape(m0, h, j - 1);
        let m = spec_run(m0, (j - 1) as nat);
        assert(decodes_to_ex(m0.mem, j - 1));
        kernel::lemma_decode_fields_ok(word_at(m0.mem, j - 1));
        let ins = instr::spec_decode(word_at(m0.mem, j - 1))->Some_0;
        assert(read_val(m.mem, m.pc as int, Size::WORD) == word_at(m0.mem, j - 1));
        lemma_ex_step(m, ins);
        crate::simulate::lemma_run_succ(m0, (j - 1) as nat);
    }
}

/// Number of instructions retired after `t` ticks: the pipeline is four
/// stages deep past fetch, and nothing retires past the halt.
pub open spec fn retired(h: int, t: int) -> int {
    if t - 4 < 0 {
        0
    } else if t - 4 > h {
        h
    } else {
        t - 4
    }
}

/// The committed counter after `t` ticks: one word per tick until the
/// halt sentinel is fetched, then frozen.
pub open spec fn pc_after(h: int, t: int) -> int {
    if t <= h {
        4 * t
    } else {
        4 * h
    }
}

/// The pipeline slot holding the word of instruction index `k`.
pub open spec fn slot_of(m0: MachineView, h: int, k: int) -> PipelineEntry {
    if 0 <= k <= h {
        PipelineEntry::Instr(word_at(m0.mem, k))
    } else {
        PipelineEntry::Empty
    }
}

/// The pipeline after `t` ticks: the last four fetched words, one stage
/// apart.
pub open spec fn pipe_after(m0: MachineView, h: int, t: int) -> Pipeline {
    Pipeline {
        s_if: PipelineEntry::Empty,
        s_id: slot_of(m0, h, t - 1),
        s_ex: slot_of(m0, h, t - 2),
        s_mem: slot_of(m0, h, t - 3),
        s_wb: slot_of(m0, h, t - 4),
    }
}

/// The staged write of instruction `j`: its destination and the value
/// the sequential semantics gives it; nothing for a write to entry 0.
pub open spec fn staged_of(m0: MachineView, h: int, j: int) -> Seq<(usize, u32)> {
    if 0 <= j < h {
        let ins = instr::spec_decode(word_at(m0.mem, j))->Some_0;
        if ex_rd(ins) != 0 {
            seq![(ex_rd(ins) as usize, ex_val(ins, spec_run(m0, j as nat).regs))]
        } else {
            Seq::empty()
        }
    } else {
        Seq::empty()
    }
}

/// The staged pipeline view after `t` ticks: the committed file holds the
/// sequential state of the retired prefix, and the staged FIFO holds the
/// writes of the two instructions past their execute stage.
pub open spec fn pv_after(m0: MachineView, h: int, t: int) -> PipeView {
    PipeView {
        committed: spec_run(m0, retired(h, t) as nat).regs,
        staged: staged_of(m0, h, t - 4) + staged_of(m0, h, t - 3),
        pc: pc_after(h, t) as u32,
        staged_pc: None,
        mem: m0.mem,
        store_queue: Seq::empty(),
        status: if t <= h + 4 {
            Status::Running
        } else {
            Status::Done
        },
    }
}

/// The staged view a clean program state starts a run with.
pub open spec fn pv_start(m0: MachineView) -> PipeView {
    PipeView {
        committed: m0.regs,
        staged: Seq::empty(),
        pc: m0.pc,
        staged_pc: None,
        mem: m0.mem,
        store_queue: Seq::empty(),
        status: m0.status,
    }
}

/// No execute-class word is the halt sentinel: the sentinel decodes to
/// the halt record, which is not execute-class.
proof fn lemma_ex_word_not_halt(m0: MachineView, h: int, j: int)
    requires
        prog_ok(m0, h),
        0 <= j < h,
    ensures
        word_at(m0.mem, j) != HALT_VAL,
{
    assert(decodes_to_ex(m0.mem, j));
}

/// Reading through the staged FIFO of the pipeline model observes the
/// sequential register state at instruction `j`: the committed file holds
/// the state one instruction back, and the staged entry of instruction
/// `j - 1` forwards exactly its write.
proof fn lemma_forward_reads(m0: MachineView, h: int, j: int, pv: PipeView)
    requires
        prog_ok(m0, h),
        0 <= j <= h,
        pv.committed == spec_run(
            m0,
            (if j == 0 {
                0
            } else {
                j - 1
            }) as nat,
        ).regs,
        pv.staged == staged_of(m0, h, j - 1),
    ensures
        forall|r: int| 0 <= r < 32 ==> #[trigger] pv_read(pv, r) == spec_run(m0, j as nat).regs[r],
{
    lemma_trace_shape(m0, h, j);
    if j == 0 {
        assert forall|r: int| 0 <= r < 32 implies #[trigger] pv_read(pv, r) == spec_run(
            m0,
            j as nat,
        ).regs[r] by {
            assert(pv.staged.len() == 0);
        }
    } else {
        let jm = j - 1;
        lemma_trace_shape(m0, h, jm);
        let m = spec_run(m0, jm as nat);
        assert(decodes_to_ex(m0.mem, jm));
        kernel::lemma_decode_fields_ok(word_at(m0.mem, jm));
        let ins = instr::spec_decode(word_at(m0.mem, jm))->Some_0;
        assert(read_val(m.mem, m.pc as int, Size::WORD) == word_at(m0.mem, jm));
        lemma_ex_step(m, ins);
        crate::simulate::lemma_run_succ(m0, jm as nat);
        assert forall|r: int| 0 <= r < 32 implies #[trigger] pv_read(pv, r) == spec_run(
            m0,
            j as nat,
        ).regs[r] by {
            if r == 0 {
            } else {
                assert(forall|k: int|
                    0 <= k < pv.staged.len() ==> 0 < #[trigger] pv.staged[k].0
                        < pv.committed.len());
                crate::reg::lemma_forwarding_matches_retirement(pv.committed, pv.staged, r);
                if ex_rd(ins) != 0 {
                    let e = (ex_rd(ins) as usize, ex_val(ins, m.regs));
                    assert(pv.staged =~= seq![e]);
                    assert(crate::reg::commit_all(pv.committed, seq![e]) == crate::reg::commit_all(
                        pv.committed.update(e.0 as int, e.1),
                        seq![e].subrange(1, 1),
                    ));
                    assert(seq![e].subrange(1, 1) =~= Seq::<(usize, u32)>::empty());
                } else {
                    assert(pv.staged.len() == 0);
                }
            }
        }
    }
}

/// One pipeline tick moves the model one tick onward: the writeback
/// stage retires the next instruction of the sequential trace, the
/// execute stage stages the value the sequential semantics gives, and
/// fetch walks one word further until the halt sentinel freezes it.
#[verifier::rlimit(60)]
proof fn lemma_tick_model(m0: MachineView, h: int, t: int)
    requires
        prog_ok(m0, h),
        0 <= t <= h + 4,
    ensures
        spec_tick(pv_after(m0, h, t), pipe_after(m0, h, t)) == (
            pv_after(m0, h, t + 1),
            pipe_after(m0, h, t + 1),
        ),
{
    let pv = pv_after(m0, h, t);
    let p = pipe_after(m0, h, t);

    // Decoding facts for every occupied slot, and the fact that no
    // execute-class word is the halt sentinel.
    if 0 <= t - 1 < h {
        assert(decodes_to_ex(m0.mem, t - 1));
        lemma_ex_word_not_halt(m0, h, t - 1);
        kernel::lemma_decode_fields_ok(word_at(m0.mem, t - 1));
    }
    if 0 <= t - 2 < h {
        assert(decodes_to_ex(m0.mem, t - 2));
        lemma_ex_word_not_halt(m0, h, t - 2);
        kernel::lemma_decode_fields_ok(word_at(m0.mem, t - 2));
    }
    if 0 <= t - 3 < h {
        assert(decodes_to_ex(m0.mem, t - 3));
        lemma_ex_word_not_halt(m0, h, t - 3);
        kernel::lemma_decode_fields_ok(word_at(m0.mem, t - 3));
    }
    if 0 <= t - 4 < h {
        assert(decodes_to_ex(m0.mem, t - 4));
        lemma_ex_word_not_halt(m0, h, t - 4);
        kernel::lemma_decode_fields_ok(word_at(m0.mem, t - 4));
    }

    // The writeback stage: the instruction four stages back retires.
    let (pv1, e_wb) = spec_run_phase(pv, p.s_wb, Phases::WB);
    let pv1_exp = PipeView {
        committed: spec_run(m0, retired(h, t + 1) as nat).regs,
        staged: staged_of(m0, h, t - 3),
        status: if t == h + 4 {
            Status::Done
        } else {
            Status::Running
        },
        ..pv
    };
    if t < 4 {
        assert(pv1 =~= pv1_exp);
    } else if t - 4 < h {
        let j = t - 4;
        lemma_trace_shape(m0, h, j);
        let m = spec_run(m0, j as nat);
        let ins = instr::spec_decode(word_at(m0.mem, j))->Some_0;
        assert(read_val(m.mem, m.pc as int, Size::WORD) == word_at(m0.mem, j));
        lemma_ex_step(m, ins);
        crate::simulate::lemma_run_succ(m0, j as nat);
        if ex_rd(ins) != 0 {
            assert(pv.staged[0] == (ex_rd(ins) as usize, ex_val(ins, m.regs)));
            assert(pv1.staged =~= staged_of(m0, h, t - 3));
        } else {
            assert(pv.staged =~= staged_of(m0, h, t - 3));
        }
        assert(pv1 =~= pv1_exp);
    } else {
        // t == h + 4: the halt sentinel reaches writeback.
        assert(p.s_wb == PipelineEntry::Instr(HALT_VAL));
        assert(pv.staged =~= Seq::<(usize, u32)>::empty());
        assert(pv1 =~= pv1_exp);
    }

    // The memory stage: nothing in this class touches memory.
    let (pv2, e_mem) = spec_run_phase(pv1_exp, p.s_mem, Phases::MEM);
    assert(pv2 =~= pv1_exp);

    // The execute stage: the instruction two stages back stages exactly
    // the value the sequential semantics gives it.
    let (pv3, e_ex) = spec_run_phase(pv1_exp, p.s_ex, Phases::EX);
    let pv3_exp = PipeView {
        staged: staged_of(m0, h, t - 3) + staged_of(m0, h, t - 2),
        ..pv1_exp
    };
    if 0 <= t - 2 && t - 2 < h {
        let j = t - 2;
        lemma_trace_shape(m0, h, j);
        let ins = instr::spec_decode(word_at(m0.mem, j))->Some_0;
        lemma_forward_reads(m0, h, j, pv1_exp);
        assert(pv3 =~= pv3_exp);
    } else {
        assert(staged_of(m0, h, t - 2) =~= Seq::<(usize, u32)>::empty());
        assert(pv3 =~= pv3_exp);
    }

    // The decode stage: nothing in this class resolves control flow.
    let (pv4, e_id) = spec_run_phase(pv3_exp, p.s_id, Phases::ID);
    assert(pv4 =~= pv3_exp);
    assert(e_id == p.s_id);

    // The slots are unchanged by the four stages.
    let p4 = p.spec_with_slot(Phases::WB, e_wb).spec_with_slot(Phases::MEM, e_mem).spec_with_slot(
        Phases::EX,
        e_ex,
    ).spec_with_slot(Phases::ID, e_id);
    assert(p4 == p);

    // Fetch, counter advance, and the slot shift.
    let fetched = spec_fetch_slot(pv3_exp, p4);
    let p5 = p4.spec_with_slot(Phases::IF, fetched);
    if t <= h {
        assert(!p4.spec_done());
        assert(pv3_exp.pc == 4 * t && 4 * t + 4 <= m0.mem.len());
        assert(fetched == slot_of(m0, h, t));
        if t < h {
            lemma_ex_word_not_halt(m0, h, t);
            assert(!p5.spec_done());
        } else {
            assert(p5.spec_done());
        }
    } else {
        assert(p4.s_id == PipelineEntry::Instr(HALT_VAL) || p4.s_ex == PipelineEntry::Instr(
            HALT_VAL,
        ) || p4.s_mem == PipelineEntry::Instr(HALT_VAL) || p4.s_wb == PipelineEntry::Instr(
            HALT_VAL,
        ));
        assert(p4.spec_done());
        assert(fetched == PipelineEntry::Empty);
        assert(p5.spec_done());
    }
    assert(p5.spec_shift() == pipe_after(m0, h, t + 1));
    assert(spec_tick(pv, p).1 == pipe_after(m0, h, t + 1));
    assert(spec_tick(pv, p).0 =~= pv_after(m0, h, t + 1));
}

/// The pipeline run from the model configuration at tick `t` reaches the
/// final configuration once enough ticks remain for every instruction
/// and the halt sentinel to drain.
proof fn lemma_pipe_run_from(m0: MachineView, h: int, t: int, n: nat)
    requires
        prog_ok(m0, h),
        0 <= t <= h + 5,
        t + n >= h + 5,
    ensures
        spec_pipe_run(pv_after(m0, h, t), pipe_after(m0, h, t), n) == (
            pv_after(m0, h, h + 5),
            pipe_after(m0, h, h + 5),
        ),
    decreases n,
{
    if t == h + 5 {
        assert(!(pv_after(m0, h, t).status is Running));
    } else {
        assert(pv_after(m0, h, t).status is Running);
        lemma_tick_model(m0, h, t);
        lemma_pipe_run_from(m0, h, t + 1, (n - 1) as nat);
    }
}

/// The in-order pipeline agrees with the sequential reference on every
/// straight-line program: run for enough ticks on a program of
/// execute-class words followed by the halt sentinel, the pipelined
/// driver's committed registers, memory and status end exactly where the
/// sequential semantics ends, with nothing left staged.
pub proof fn lemma_in_order_matches_sequential(m0: MachineView, h: int, n: nat)
    requires
        prog_ok(m0, h),
        n >= h + 5,
    ensures
        ({
            let end = spec_pipe_run(pv_start(m0), spec_empty_pipeline(), n).0;
            let seq_end = spec_run(m0, (h + 1) as nat);
            &&& end.committed == seq_end.regs
            &&& end.mem == seq_end.mem
            &&& end.status == seq_end.status
            &&& end.staged.len() == 0
            &&& end.store_queue.len() == 0
        }),
{
    assert(pv_start(m0) =~= pv_after(m0, h, 0));
    assert(spec_empty_pipeline() == pipe_after(m0, h, 0));
    lemma_pipe_run_from(m0, h, 0, n);
    lemma_trace_shape(m0, h, h);
    let m = spec_run(m0, h as nat);
    assert(read_val(m.mem, m.pc as int, Size::WORD) == word_at(m0.mem, h));
    lemma_halt_step(m);
    crate::simulate::lemma_run_succ(m0, h as nat);
    assert(pv_after(m0, h, h + 5).staged =~= Seq::<(usize, u32)>::empty());
}

/// A well-formed clean program state's staged view is the start view of
/// its architectural view.  Through this, the drivers' own contracts
/// connect to the agreement law: the pipelined driver ensures its result
/// is `spec_pipe_run` from the state's staged view, and the sequential
/// driver ensures its result is `spec_run` from the state's
/// architectural view.
pub proof fn lemma_clean_state_views(ps: crate::program_state::ProgramState)
    requires
        ps.wf(),
        ps.clean(),
    ensures
        ps.pview() == pv_start(ps@),
{
    assert(ps.pview().committed =~= pv_start(ps@).committed);
    assert(ps.pview() =~= pv_start(ps@));
}

} // verus!
