//! The sequential driver: an atomic fetch-decode-execute loop that follows
//! the reference semantics step for step.  A fetch fault ends the run with
//! a memory exception, a load fault leaves the destination register
//! untouched, a store fault ends the run, and a word that does not decode
//! is fatal.

use vstd::prelude::*;
use crate::instr::{self, DecodeError, IInstr, InstrType};
use crate::kernel::{self, DirectiveSet, OutputDirective};
use crate::program_state::{Exceptions, ProgramState, Status};
use crate::simulate::{self, spec_run, spec_step, spec_stuck};
use crate::word;

verus! {

/// Whether the instruction is a load.
fn is_load_ins(ins: &InstrType) -> (l: bool)
    ensures
        l == simulate::is_load(*ins),
{
    match ins {
        InstrType::I { var, .. } => match var {
            IInstr::LB => true,
            IInstr::LH => true,
            IInstr::LW => true,
            IInstr::LBU => true,
            IInstr::LHU => true,
            _ => false,
        },
        _ => false,
    }
}

/// Runs one instruction of the sequential driver: exactly one step of the
/// reference semantics.  Refuses, changing nothing, iff the fetched word
/// does not decode.
pub fn run_instr(ps: &mut ProgramState) -> (r: Result<(), DecodeError>)
    requires
        old(ps).wf(),
        old(ps).clean(),
        old(ps).status is Running,
    ensures
        final(ps).wf(),
        final(ps).clean(),
        r is Ok ==> final(ps)@ == spec_step(old(ps)@),
        r is Err ==> *final(ps) == *old(ps) && spec_stuck(old(ps)@),
{
    let pc = ps.regs.pc();
    let loc = word::as_usize(pc);
    let raw = match ps.mem.read_instr(loc) {
        Ok(raw) => raw,
        Err(_) => {
            ps.status = Status::Exception(Exceptions::Mem);
            proof {
                assert(ps@ =~= spec_step(old(ps)@));
            }
            return Ok(());
        },
    };
    let ins = match instr::decode(raw) {
        Ok(ins) => ins,
        Err(e) => {
            return Err(e);
        },
    };
    proof {
        kernel::lemma_decode_fields_ok(raw);
    }
    let ds = kernel::kernel(pc, ins, ps);
    let ds = if is_load_ins(&ins) && ds.first == OutputDirective::Exception(Exceptions::Mem) {
        DirectiveSet { first: OutputDirective::Nop, second: ds.second }
    } else {
        ds
    };
    proof {
        kernel::lemma_kernel_directives_ok(pc, ins, old(ps).regs_view(), old(ps).mem.data@);
    }
    simulate::apply_set(ps, ds);
    proof {
        assert(ps@ =~= spec_step(old(ps)@));
    }
    Ok(())
}

/// Runs the sequential driver for at most `fuel` steps: the result is
/// exactly the reference semantics iterated `fuel` times (a finished or
/// faulted state stays as it is, so any `fuel` large enough to reach the
/// halt gives the final state).  Refuses iff the run reaches a word that
/// does not decode.
pub fn execute(ps: ProgramState, fuel: u64) -> (r: Result<ProgramState, DecodeError>)
    requires
        ps.wf(),
        ps.clean(),
    ensures
        r matches Ok(f) ==> f.wf() && f.clean() && f@ == spec_run(ps@, fuel as nat),
        r is Err ==> spec_stuck(spec_run(ps@, fuel as nat)),
{
    let ghost init = ps@;
    let mut st = ps;
    let mut k: u64 = 0;
    while k < fuel
        invariant
            init == ps@,
            st.wf(),
            st.clean(),
            k <= fuel,
            st@ == spec_run(init, k as nat),
        decreases fuel - k,
    {
        let running = match st.status {
            Status::Running => true,
            _ => false,
        };
        if !running {
            proof {
                simulate::lemma_run_compose(init, k as nat, (fuel - k) as nat);
                simulate::lemma_run_stationary(st@, (fuel - k) as nat);
            }
            return Ok(st);
        }
        match run_instr(&mut st) {
            Ok(_) => {},
            Err(e) => {
                proof {
                    simulate::lemma_run_compose(init, k as nat, (fuel - k) as nat);
                    simulate::lemma_run_stationary(st@, (fuel - k) as nat);
                }
                return Err(e);
            },
        }
        proof {
            simulate::lemma_run_succ(init, k as nat);
        }
        k = k + 1;
    }
    Ok(st)
}

} // verus!
