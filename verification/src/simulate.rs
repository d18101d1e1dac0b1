//! The ground-truth machine semantics: what one atomic
//! fetch-decode-execute step does to the architectural state, and the
//! applier that carries a single directive out against a program state.
//! The sequential driver follows this semantics step for step; the other
//! drivers are compared against it scenario for scenario.

use vstd::prelude::*;
use crate::instr::{self, InstrType};
use crate::kernel::{
    self, spec_kernel, spec_load_shape, DirectiveSet, OutputDirective, directive_ok,
};
use crate::mem::{read_val, store_bytes, Size};
use crate::program_state::{Exceptions, MachineView, ProgramState, Status};
use crate::word;

verus! {

/// The state after one directive is applied: registers written directly
/// (entry 0 discarded), stores bounds-checked at application time, the
/// counter retargeted, or the status changed.
pub open spec fn spec_apply_directive(m: MachineView, d: OutputDirective) -> MachineView {
    match d {
        OutputDirective::Nop => m,
        OutputDirective::SetPC(t) => MachineView { pc: t, ..m },
        OutputDirective::WriteReg(rd, v) => if rd == 0 {
            m
        } else {
            MachineView { regs: m.regs.update(rd as int, v), ..m }
        },
        OutputDirective::Store(addr, v, s) => if addr + s.spec_width() <= m.mem.len() {
            MachineView { mem: store_bytes(m.mem, addr as int, v, s), ..m }
        } else {
            MachineView { status: Status::Exception(Exceptions::Mem), ..m }
        },
        OutputDirective::Exception(k) => MachineView { status: Status::Exception(k), ..m },
        OutputDirective::Halt => MachineView { status: Status::Done, ..m },
    }
}

/// Whether the effect set retargets the program counter.
pub open spec fn has_setpc(ds: DirectiveSet) -> bool {
    ds.first is SetPC || ds.second is SetPC
}

/// The state after an instruction's whole effect set is applied and the
/// counter advances one word unless a directive already retargeted it.
pub open spec fn spec_apply_full(m: MachineView, ds: DirectiveSet) -> MachineView {
    let m1 = spec_apply_directive(spec_apply_directive(m, ds.first), ds.second);
    if has_setpc(ds) {
        m1
    } else {
        MachineView { pc: word::wrap_add(m1.pc, 4), ..m1 }
    }
}

/// Whether the instruction is a load.
pub open spec fn is_load(ins: InstrType) -> bool {
    ins matches InstrType::I { var, .. } && spec_load_shape(var) is Some
}

/// The sequential driver's soft recovery: a memory fault raised by a load
/// leaves the destination register untouched instead of ending the run.
pub open spec fn spec_soft_recover(ins: InstrType, ds: DirectiveSet) -> DirectiveSet {
    if is_load(ins) && ds.first == OutputDirective::Exception(Exceptions::Mem) {
        DirectiveSet { first: OutputDirective::Nop, second: ds.second }
    } else {
        ds
    }
}

/// Whether the next instruction word can be fetched.
pub open spec fn spec_fetch_ok(m: MachineView) -> bool {
    m.pc + 4 <= m.mem.len()
}

/// A running state whose next word fetches but does not decode: the
/// sequential driver treats this as fatal and stops without a step.
pub open spec fn spec_stuck(m: MachineView) -> bool {
    &&& m.status is Running
    &&& spec_fetch_ok(m)
    &&& instr::spec_decode(read_val(m.mem, m.pc as int, Size::WORD)) is None
}

/// One atomic fetch-decode-execute step of the reference semantics.  A
/// stopped or stuck state is left as it is; a fetch fault becomes a memory
/// exception; otherwise the instruction's directives are applied and the
/// counter advances by one word unless a directive already retargeted it.
pub open spec fn spec_step(m: MachineView) -> MachineView {
    if !(m.status is Running) {
        m
    } else if !spec_fetch_ok(m) {
        MachineView { status: Status::Exception(Exceptions::Mem), ..m }
    } else {
        match instr::spec_decode(read_val(m.mem, m.pc as int, Size::WORD)) {
            None => m,
            Some(ins) => {
                let ds = spec_soft_recover(ins, spec_kernel(m.pc, ins, m.regs, m.mem));
                let m1 = spec_apply_directive(spec_apply_directive(m, ds.first), ds.second);
                if has_setpc(ds) {
                    m1
                } else {
                    MachineView { pc: word::wrap_add(m1.pc, 4), ..m1 }
                }
            },
        }
    }
}

/// The reference semantics iterated `n` steps.
pub open spec fn spec_run(m: MachineView, n: nat) -> MachineView
    decreases n,
{
    if n == 0 {
        m
    } else {
        spec_run(spec_step(m), (n - 1) as nat)
    }
}

/// A stopped or stuck state does not move, however many steps are taken.
pub proof fn lemma_run_stationary(m: MachineView, n: nat)
    requires
        !(m.status is Running) || spec_stuck(m),
    ensures
        spec_run(m, n) == m,
    decreases n,
{
    if n > 0 {
        assert(spec_step(m) == m);
        lemma_run_stationary(spec_step(m), (n - 1) as nat);
    }
}

/// One more iteration is one more step at the end.
pub proof fn lemma_run_succ(m: MachineView, n: nat)
    ensures
        spec_run(m, n + 1) == spec_step(spec_run(m, n)),
    decreases n,
{
    if n > 0 {
        lemma_run_succ(spec_step(m), (n - 1) as nat);
    } else {
        assert(spec_run(m, 1) == spec_run(spec_step(m), 0));
        assert(spec_run(spec_step(m), 0) == spec_step(m));
    }
}

/// Iterating `a + b` steps is iterating `a`, then `b`.
pub proof fn lemma_run_compose(m: MachineView, a: nat, b: nat)
    ensures
        spec_run(m, a + b) == spec_run(spec_run(m, a), b),
    decreases a,
{
    if a > 0 {
        lemma_run_compose(spec_step(m), (a - 1) as nat, b);
    }
}

/// Program-counter monotonicity under straight-line code: when the
/// instruction a step executes is neither a jump, a branch, nor an
/// indirect jump, the counter advances by exactly one word.
pub proof fn lemma_pc_straight_line(m: MachineView)
    requires
        m.status is Running,
        spec_fetch_ok(m),
        instr::spec_decode(read_val(m.mem, m.pc as int, Size::WORD)) is Some,
        ({
            let ins = instr::spec_decode(read_val(m.mem, m.pc as int, Size::WORD))->Some_0;
            &&& !(ins matches InstrType::J { .. })
            &&& !(ins matches InstrType::B { .. })
            &&& !(ins matches InstrType::I { var: instr::IInstr::JALR, .. })
        }),
    ensures
        spec_step(m).pc == word::wrap_add(m.pc, 4),
{
    let ins = instr::spec_decode(read_val(m.mem, m.pc as int, Size::WORD))->Some_0;
    let ds = spec_soft_recover(ins, spec_kernel(m.pc, ins, m.regs, m.mem));
    assert(!has_setpc(ds));
    assert(spec_apply_directive(spec_apply_directive(m, ds.first), ds.second).pc == m.pc);
}

/// A retired register write is observed exactly: when the instruction a
/// step executes produces a write directive for a register other than
/// entry 0, the state after the step holds in that register exactly the
/// value the semantic kernel produced.
pub proof fn lemma_written_register_reads_back(m: MachineView)
    requires
        m.status is Running,
        spec_fetch_ok(m),
        instr::spec_decode(read_val(m.mem, m.pc as int, Size::WORD)) is Some,
    ensures
        ({
            let ins = instr::spec_decode(read_val(m.mem, m.pc as int, Size::WORD))->Some_0;
            let ds = spec_soft_recover(ins, spec_kernel(m.pc, ins, m.regs, m.mem));
            &&& (ds.first matches OutputDirective::WriteReg(rd, v) ==> (rd != 0 && rd
                < m.regs.len() ==> spec_step(m).regs[rd as int] == v))
            &&& (ds.second matches OutputDirective::WriteReg(rd, v) ==> (rd != 0 && rd
                < m.regs.len() ==> spec_step(m).regs[rd as int] == v))
        }),
{
    let ins = instr::spec_decode(read_val(m.mem, m.pc as int, Size::WORD))->Some_0;
    let ds = spec_soft_recover(ins, spec_kernel(m.pc, ins, m.regs, m.mem));
    // At most one register or memory directive per instruction: whenever
    // the first directive writes a register, the second is a no-op, so
    // neither application disturbs the other's write.
    assert(ds.first is WriteReg ==> ds.second is Nop);
}

/// Register entry 0 is invariant under the step semantics: a state whose
/// entry 0 is zero steps to a state whose entry 0 is zero, because write
/// directives for entry 0 are discarded.
pub proof fn lemma_step_keeps_x0_zero(m: MachineView)
    requires
        m.regs.len() == 32,
        m.regs[0] == 0,
    ensures
        spec_step(m).regs.len() == 32,
        spec_step(m).regs[0] == 0,
{
    if m.status is Running && spec_fetch_ok(m) {
        let raw = read_val(m.mem, m.pc as int, Size::WORD);
        kernel::lemma_decode_fields_ok(raw);
        if instr::spec_decode(raw) is Some {
            let ins = instr::spec_decode(raw)->Some_0;
            kernel::lemma_kernel_directives_ok(m.pc, ins, m.regs, m.mem);
        }
    }
}

/// Applies one directive to a clean program state, exactly as
/// `spec_apply_directive` describes.
pub fn apply_directive(ps: &mut ProgramState, d: OutputDirective)
    requires
        old(ps).wf(),
        old(ps).clean(),
        directive_ok(d),
    ensures
        final(ps).wf(),
        final(ps).clean(),
        final(ps)@ == spec_apply_directive(old(ps)@, d),
{
    match d {
        OutputDirective::Nop => {
            proof {
                assert(ps@ =~= spec_apply_directive(old(ps)@, d));
            }
        },
        OutputDirective::SetPC(t) => {
set_pc_directive(ps, t);
        },
        OutputDirective::WriteReg(rd, v) => {
write_reg_directive(ps, rd, v);
        },
        OutputDirective::Store(addr, v, s) => {
store_directive(ps, addr, v, s);
        },
        OutputDirective::Exception(k) => {
            ps.status = Status::Exception(k);
            proof {
                assert(ps@ =~= spec_apply_directive(old(ps)@, d));
            }
        },
        OutputDirective::Halt => {
            ps.status = Status::Done;
            proof {
                assert(ps@ =~= spec_apply_directive(old(ps)@, d));
            }
        },
    }
}

/// Retargets the committed program counter.
fn set_pc_directive(ps: &mut ProgramState, t: u32)
    requires
        old(ps).wf(),
        old(ps).clean(),
    ensures
        final(ps).wf(),
        final(ps).clean(),
        final(ps)@ == spec_apply_directive(old(ps)@, OutputDirective::SetPC(t)),
{
    ps.regs.assign_pc(t);
    proof {
        assert(ps.regs_view() =~= old(ps).regs_view());
        assert(ps@ =~= spec_apply_directive(old(ps)@, OutputDirective::SetPC(t)));
    }
}

/// Writes a register directly; entry 0 is discarded.
fn write_reg_directive(ps: &mut ProgramState, rd: u32, v: u32)
    requires
        old(ps).wf(),
        old(ps).clean(),
        rd < 32,
    ensures
        final(ps).wf(),
        final(ps).clean(),
        final(ps)@ == spec_apply_directive(old(ps)@, OutputDirective::WriteReg(rd, v)),
{
    ps.regs.force_assign(rd, v);
    proof {
        if rd == 0 {
            assert(ps.regs_view() =~= old(ps).regs_view());
        } else {
            assert(ps.regs_view() =~= old(ps).regs_view().update(rd as int, v));
        }
        assert(ps@ =~= spec_apply_directive(old(ps)@, OutputDirective::WriteReg(rd, v)));
    }
}

/// Performs a store against the bytes; an out-of-bounds store becomes a
/// memory exception.
fn store_directive(ps: &mut ProgramState, addr: u32, v: u32, s: Size)
    requires
        old(ps).wf(),
        old(ps).clean(),
    ensures
        final(ps).wf(),
        final(ps).clean(),
        final(ps)@ == spec_apply_directive(old(ps)@, OutputDirective::Store(addr, v, s)),
{
    let loc = word::as_usize(addr);
    match ps.mem.write(loc, v, s) {
        Ok(_) => {
            proof {
                assert(ps.regs_view() =~= old(ps).regs_view());
                assert(ps@ =~= spec_apply_directive(old(ps)@, OutputDirective::Store(addr, v, s)));
            }
        },
        Err(_) => {
            ps.status = Status::Exception(Exceptions::Mem);
            proof {
                assert(ps.regs_view() =~= old(ps).regs_view());
                assert(ps@ =~= spec_apply_directive(old(ps)@, OutputDirective::Store(addr, v, s)));
            }
        },
    }
}

/// Applies an instruction's whole effect set and advances the counter by
/// one word unless a directive already retargeted it.
pub fn apply_set(ps: &mut ProgramState, ds: DirectiveSet)
    requires
        old(ps).wf(),
        old(ps).clean(),
        directive_ok(ds.first),
        directive_ok(ds.second),
    ensures
        final(ps).wf(),
        final(ps).clean(),
        final(ps)@ == spec_apply_full(old(ps)@, ds),
{
    apply_directive(ps, ds.first);
    apply_directive(ps, ds.second);
    let setpc = match (ds.first, ds.second) {
        (OutputDirective::SetPC(_), _) => true,
        (_, OutputDirective::SetPC(_)) => true,
        _ => false,
    };
    if !setpc {
        ps.regs.inc_pc();
    }
    proof {
        let m1 = spec_apply_directive(spec_apply_directive(old(ps)@, ds.first), ds.second);
        if has_setpc(ds) {
            assert(ps@ =~= m1);
        } else {
            assert(ps@ =~= MachineView { pc: word::wrap_add(m1.pc, 4), ..m1 });
        }
    }
}

} // verus!
