//! The out-of-order driver: each tick it decodes a lookahead window of
//! future instructions, keeps for every entry the newest earlier in-flight
//! instruction it depends on, dispatches the entries whose producers have
//! retired, and retires finished artifacts into architectural state
//! strictly in program order.  A taken control transfer retargets the
//! committed counter and flushes everything still in flight.

use vstd::prelude::*;
use std::collections::VecDeque;
use crate::instr::{self, InstrType};
use crate::kernel::{self, spec_kernel, DirectiveSet};
use crate::mem::{read_val, Size};
use crate::program_state::{Exceptions, MachineView, ProgramState, Status};
use crate::simulate::{self, has_setpc, spec_apply_full};
use crate::word;

verus! {

/// A dispatched instruction's finished side effects, waiting to retire.
#[derive(Clone, Copy, Debug)]
pub struct OutputArtifact {
    /// The address the instruction was fetched from; retirement applies
    /// artifacts in increasing address order.
    pub src_pc: u32,
    /// The decoded instruction, kept for dependency scanning.
    pub instr: InstrType,
    /// The computed side effects.
    pub finish: DirectiveSet,
}

/// A window entry: address, decoded instruction, and the address of the
/// newest earlier in-flight instruction it must wait for, if any.
pub type WindowEntry = (u32, InstrType, Option<u32>);

/// Whether an instruction at address `p` is still in flight: waiting in
/// the window or dispatched but not yet retired.
pub open spec fn spec_in_flight(
    window: Seq<WindowEntry>,
    ready: Seq<OutputArtifact>,
    p: u32,
) -> bool {
    (exists|k: int| 0 <= k < window.len() && window[k].0 == p) || (exists|k: int|
        0 <= k < ready.len() && ready[k].src_pc == p)
}

/// Every window entry decodes to well-formed operand fields.
pub open spec fn window_ok(window: Seq<WindowEntry>) -> bool {
    forall|k: int| 0 <= k < window.len() ==> kernel::fields_ok(#[trigger] window[k].1)
}

/// Every waiting artifact can be applied.
pub open spec fn ready_ok(ready: Seq<OutputArtifact>) -> bool {
    forall|k: int|
        0 <= k < ready.len() ==> kernel::directive_ok(#[trigger] ready[k].finish.first)
            && kernel::directive_ok(ready[k].finish.second)
}

/// Whether the instruction is a load.
pub open spec fn spec_is_load(ins: InstrType) -> bool {
    ins matches InstrType::I { var, .. } && kernel::spec_load_shape(var) is Some
}

/// Whether a store older than the instruction at `p` is still in flight.
/// The dependency oracle is register-only, so the scheduler itself must
/// hold a load back until every older store has drained into memory.
pub open spec fn spec_store_in_flight_before(
    window: Seq<WindowEntry>,
    ready: Seq<OutputArtifact>,
    p: u32,
) -> bool {
    (exists|k: int|
        0 <= k < window.len() && window[k].0 < p && window[k].1 is S) || (exists|k: int|
        0 <= k < ready.len() && ready[k].src_pc < p && ready[k].instr is S)
}

/// The running best of the newest-dependency scan over the window's
/// entries from position `k` onward.
pub open spec fn nd_window(
    window: Seq<WindowEntry>,
    ins: InstrType,
    k: int,
    best: Option<u32>,
) -> Option<u32>
    decreases window.len() - k,
{
    if k < 0 || k >= window.len() {
        best
    } else {
        let best2 = if ins.spec_depends_on(window[k].1) {
            match best {
                Some(m) => if window[k].0 > m {
                    Some(window[k].0)
                } else {
                    Some(m)
                },
                None => Some(window[k].0),
            }
        } else {
            best
        };
        nd_window(window, ins, k + 1, best2)
    }
}

/// The running best of the newest-dependency scan over the waiting
/// artifacts from position `k` onward.
pub open spec fn nd_ready(
    ready: Seq<OutputArtifact>,
    ins: InstrType,
    k: int,
    best: Option<u32>,
) -> Option<u32>
    decreases ready.len() - k,
{
    if k < 0 || k >= ready.len() {
        best
    } else {
        let best2 = if ins.spec_depends_on(ready[k].instr) {
            match best {
                Some(m) => if ready[k].src_pc > m {
                    Some(ready[k].src_pc)
                } else {
                    Some(m)
                },
                None => Some(ready[k].src_pc),
            }
        } else {
            best
        };
        nd_ready(ready, ins, k + 1, best2)
    }
}

/// The address of the newest in-flight instruction `ins` depends on, or
/// nothing when no in-flight instruction is depended on.
pub open spec fn spec_newest_dep(
    window: Seq<WindowEntry>,
    ready: Seq<OutputArtifact>,
    ins: InstrType,
) -> Option<u32> {
    nd_ready(ready, ins, 0, nd_window(window, ins, 0, None))
}

/// Whether a window entry may dispatch this tick: the producer it waits
/// for has retired, and a load additionally waits for every older store
/// to drain.
pub open spec fn spec_runnable(
    window: Seq<WindowEntry>,
    ready: Seq<OutputArtifact>,
    e: WindowEntry,
) -> bool {
    (match e.2 {
        None => true,
        Some(w) => !spec_in_flight(window, ready, w),
    }) && !(spec_is_load(e.1) && spec_store_in_flight_before(window, ready, e.0))
}

/// The window after the fetch phase has looked at the first `i` of the
/// ten future words: an address not yet in flight whose word fetches and
/// decodes is appended, carrying the newest in-flight dependency.
pub open spec fn spec_fetch_upto(
    m: MachineView,
    w0: Seq<WindowEntry>,
    ready: Seq<OutputArtifact>,
    i: int,
) -> Seq<WindowEntry>
    decreases i,
{
    if i <= 0 {
        w0
    } else {
        let w = spec_fetch_upto(m, w0, ready, i - 1);
        let addr = word::wrap_add(m.pc, (4 * (i - 1)) as u32);
        if !spec_in_flight(w, ready, addr) && addr + 4 <= m.mem.len() && instr::spec_decode(
            read_val(m.mem, addr as int, Size::WORD),
        ) is Some {
            let ins = instr::spec_decode(read_val(m.mem, addr as int, Size::WORD))->Some_0;
            w.push((addr, ins, spec_newest_dep(w, ready, ins)))
        } else {
            w
        }
    }
}

/// The pending window and the artifact queue after the first `k` window
/// entries are classified against the whole window and dispatched or
/// kept.
pub open spec fn spec_dispatch_upto(
    m: MachineView,
    window: Seq<WindowEntry>,
    r0: Seq<OutputArtifact>,
    k: int,
) -> (Seq<WindowEntry>, Seq<OutputArtifact>)
    decreases k,
{
    if k <= 0 {
        (Seq::<WindowEntry>::empty(), r0)
    } else {
        let (pend, r) = spec_dispatch_upto(m, window, r0, k - 1);
        let e = window[k - 1];
        if spec_runnable(window, r0, e) {
            (
                pend,
                r.push(
                    OutputArtifact {
                        src_pc: e.0,
                        instr: e.1,
                        finish: spec_kernel(e.0, e.1, m.regs, m.mem),
                    },
                ),
            )
        } else {
            (pend.push(e), r)
        }
    }
}

/// The position of the first waiting artifact at exactly address `pc`,
/// searching from position `k`.
pub open spec fn spec_find_ready(ready: Seq<OutputArtifact>, pc: u32, k: int) -> Option<int>
    decreases ready.len() - k,
{
    if k < 0 || k >= ready.len() {
        None
    } else if ready[k].src_pc == pc {
        Some(k)
    } else {
        spec_find_ready(ready, pc, k + 1)
    }
}

/// The retirement drain: while the artifact at the committed counter is
/// waiting, its directives are applied; a non-control artifact advances
/// the counter one word, a control transfer retargets it and flushes
/// everything still in flight, and a status change stops the drain.
pub open spec fn spec_retire(
    m: MachineView,
    window: Seq<WindowEntry>,
    ready: Seq<OutputArtifact>,
) -> (MachineView, Seq<WindowEntry>, Seq<OutputArtifact>)
    decreases ready.len(),
{
    match spec_find_ready(ready, m.pc, 0) {
        None => (m, window, ready),
        Some(i) => {
            if 0 <= i < ready.len() {
                let ds = ready[i].finish;
                let m2 = spec_apply_full(m, ds);
                let r2 = ready.remove(i);
                let (w3, r3) = if has_setpc(ds) {
                    (Seq::<WindowEntry>::empty(), Seq::<OutputArtifact>::empty())
                } else {
                    (window, r2)
                };
                if m2.status is Running {
                    spec_retire(m2, w3, r3)
                } else {
                    (m2, w3, r3)
                }
            } else {
                (m, window, ready)
            }
        },
    }
}

/// One scheduler tick: fetch the window, stop with an exception when
/// even the instruction at the committed counter cannot enter the
/// window, classify and dispatch, then retire in program order.
pub open spec fn spec_sched_tick(
    m: MachineView,
    window: Seq<WindowEntry>,
    ready: Seq<OutputArtifact>,
) -> (MachineView, Seq<WindowEntry>, Seq<OutputArtifact>) {
    let w1 = spec_fetch_upto(m, window, ready, 10);
    if !spec_in_flight(w1, ready, m.pc) {
        let st = if m.pc + 4 <= m.mem.len() {
            Status::Exception(Exceptions::Decode)
        } else {
            Status::Exception(Exceptions::Mem)
        };
        (MachineView { status: st, ..m }, w1, ready)
    } else {
        let (pend, r1) = spec_dispatch_upto(m, w1, ready, w1.len() as int);
        spec_retire(m, pend, r1)
    }
}

/// The scheduler run `n` ticks onward, stopping once the status leaves
/// `Running`.
pub open spec fn spec_sched_run(
    m: MachineView,
    window: Seq<WindowEntry>,
    ready: Seq<OutputArtifact>,
    n: nat,
) -> (MachineView, Seq<WindowEntry>, Seq<OutputArtifact>)
    decreases n,
{
    if n == 0 || !(m.status is Running) {
        (m, window, ready)
    } else {
        let (m2, w2, r2) = spec_sched_tick(m, window, ready);
        spec_sched_run(m2, w2, r2, (n - 1) as nat)
    }
}

/// Decides `spec_in_flight`.
fn in_flight(window: &VecDeque<WindowEntry>, ready: &Vec<OutputArtifact>, p: u32) -> (r: bool)
    ensures
        r == spec_in_flight(window@, ready@, p),
{
    let mut k: usize = 0;
    while k < window.len()
        invariant
            k <= window@.len(),
            forall|j: int| 0 <= j < k ==> window@[j].0 != p,
        decreases window@.len() - k,
    {
        if window[k].0 == p {
            return true;
        }
        k = k + 1;
    }
    let mut k: usize = 0;
    while k < ready.len()
        invariant
            k <= ready@.len(),
            forall|j: int| 0 <= j < k ==> ready@[j].src_pc != p,
            forall|j: int| 0 <= j < window@.len() ==> window@[j].0 != p,
        decreases ready@.len() - k,
    {
        if ready[k].src_pc == p {
            return true;
        }
        k = k + 1;
    }
    false
}

/// Decides `spec_store_in_flight_before`.
fn store_in_flight_before(
    window: &VecDeque<WindowEntry>,
    ready: &Vec<OutputArtifact>,
    p: u32,
) -> (r: bool)
    ensures
        r == spec_store_in_flight_before(window@, ready@, p),
{
    let mut k: usize = 0;
    while k < window.len()
        invariant
            k <= window@.len(),
            forall|j: int| 0 <= j < k ==> !(window@[j].0 < p && window@[j].1 is S),
        decreases window@.len() - k,
    {
        let (q, ins, _) = window[k];
        let is_store = match ins {
            InstrType::S { .. } => true,
            _ => false,
        };
        if q < p && is_store {
            return true;
        }
        k = k + 1;
    }
    let mut k: usize = 0;
    while k < ready.len()
        invariant
            k <= ready@.len(),
            forall|j: int| 0 <= j < k ==> !(ready@[j].src_pc < p && ready@[j].instr is S),
            forall|j: int| 0 <= j < window@.len() ==> !(window@[j].0 < p && window@[j].1 is S),
        decreases ready@.len() - k,
    {
        let is_store = match ready[k].instr {
            InstrType::S { .. } => true,
            _ => false,
        };
        if ready[k].src_pc < p && is_store {
            return true;
        }
        k = k + 1;
    }
    false
}

/// Computes `spec_newest_dep` by scanning the window, then the waiting
/// artifacts, keeping the largest dependency address found.
fn newest_dep(window: &VecDeque<WindowEntry>, ready: &Vec<OutputArtifact>, ins: &InstrType) -> (r:
    Option<u32>)
    ensures
        r == spec_newest_dep(window@, ready@, *ins),
{
    let mut best: Option<u32> = None;
    let mut k: usize = 0;
    while k < window.len()
        invariant
            k <= window@.len(),
            spec_newest_dep(window@, ready@, *ins) == nd_ready(
                ready@,
                *ins,
                0,
                nd_window(window@, *ins, k as int, best),
            ),
        decreases window@.len() - k,
    {
        let (p, wins, _) = window[k];
        if ins.depends_on(&wins) {
            best = match best {
                Some(m) => if p > m {
                    Some(p)
                } else {
                    Some(m)
                },
                None => Some(p),
            };
        }
        k = k + 1;
    }
    let mut k: usize = 0;
    while k < ready.len()
        invariant
            k <= ready@.len(),
            spec_newest_dep(window@, ready@, *ins) == nd_ready(ready@, *ins, k as int, best),
        decreases ready@.len() - k,
    {
        if ins.depends_on(&ready[k].instr) {
            let p = ready[k].src_pc;
            best = match best {
                Some(m) => if p > m {
                    Some(p)
                } else {
                    Some(m)
                },
                None => Some(p),
            };
        }
        k = k + 1;
    }
    best
}

/// Looks for the first waiting artifact at exactly the committed
/// counter.
fn find_ready(ready: &Vec<OutputArtifact>, pc: u32) -> (r: Option<usize>)
    ensures
        r matches Some(i) ==> i < ready@.len() && ready@[i as int].src_pc == pc
            && spec_find_ready(ready@, pc, 0) == Some(i as int),
        r is None ==> spec_find_ready(ready@, pc, 0) is None,
{
    let mut k: usize = 0;
    while k < ready.len()
        invariant
            k <= ready@.len(),
            spec_find_ready(ready@, pc, 0) == spec_find_ready(ready@, pc, k as int),
        decreases ready@.len() - k,
    {
        if ready[k].src_pc == pc {
            return Some(k);
        }
        k = k + 1;
    }
    None
}

/// Runs the out-of-order driver for at most `fuel` ticks: the result is
/// exactly the scheduler semantics iterated until the run stops or the
/// ticks are spent.  Computation may happen ahead of program order, but
/// retirement into registers, memory and status is strictly in program
/// order: an artifact is applied only when its address equals the
/// committed counter.
pub fn execute(ps: ProgramState, fuel: u64) -> (r: ProgramState)
    requires
        ps.wf(),
        ps.clean(),
    ensures
        r.wf(),
        r.clean(),
        r@ == spec_sched_run(
            ps@,
            Seq::<WindowEntry>::empty(),
            Seq::<OutputArtifact>::empty(),
            fuel as nat,
        ).0,
{
    let ghost init = ps@;
    let mut st = ps;
    let mut window: VecDeque<WindowEntry> = VecDeque::new();
    let mut ready: Vec<OutputArtifact> = Vec::new();
    let mut k: u64 = 0;
    while k < fuel
        invariant
            st.wf(),
            st.clean(),
            k <= fuel,
            init == ps@,
            window_ok(window@),
            ready_ok(ready@),
            spec_sched_run(
                init,
                Seq::<WindowEntry>::empty(),
                Seq::<OutputArtifact>::empty(),
                fuel as nat,
            ) == spec_sched_run(st@, window@, ready@, (fuel - k) as nat),
        decreases fuel - k,
    {
        let running = match st.status {
            Status::Running => true,
            _ => false,
        };
        if !running {
            return st;
        }
        let ghost m_tick = st@;
        let ghost w_tick = window@;
        let ghost r_tick = ready@;

        // Fetch window: decode up to ten future words, skipping addresses
        // already in flight, fetch faults and undecodable words; keep for
        // each new entry the newest in-flight instruction it depends on.
        let curr_pc = st.regs.pc();
        let mut i: u32 = 0;
        while i < 10
            invariant
                st.wf(),
                st.clean(),
                i <= 10,
                st@ == m_tick,
                curr_pc == m_tick.pc,
                ready@ == r_tick,
                window_ok(window@),
                ready_ok(ready@),
                window@ == spec_fetch_upto(m_tick, w_tick, r_tick, i as int),
            decreases 10 - i,
        {
            let addr = curr_pc.wrapping_add(4 * i);
            if !in_flight(&window, &ready, addr) {
                match st.mem.read_instr(word::as_usize(addr)) {
                    Ok(raw) => match instr::decode(raw) {
                        Ok(ins) => {
                            proof {
                                kernel::lemma_decode_fields_ok(raw);
                            }
                            let waits = newest_dep(&window, &ready, &ins);
                            window.push_back((addr, ins, waits));
                        },
                        Err(_) => {},
                    },
                    Err(_) => {},
                }
            }
            i = i + 1;
        }

        // If even the instruction at the committed counter is not in
        // flight, nothing can ever retire: surface the fetch or decode
        // fault and stop.
        if !in_flight(&window, &ready, curr_pc) {
            match st.mem.read_instr(word::as_usize(curr_pc)) {
                Ok(_) => {
                    st.status = Status::Exception(Exceptions::Decode);
                },
                Err(_) => {
                    st.status = Status::Exception(Exceptions::Mem);
                },
            }
            proof {
                assert(st@ =~= spec_sched_tick(m_tick, w_tick, r_tick).0);
                let (m2, w2, r2) = spec_sched_tick(m_tick, w_tick, r_tick);
                assert(!(m2.status is Running));
                assert(spec_sched_run(m_tick, w_tick, r_tick, (fuel - k) as nat)
                    == spec_sched_run(m2, w2, r2, (fuel - k - 1) as nat));
                assert(spec_sched_run(m2, w2, r2, (fuel - k - 1) as nat) == (m2, w2, r2));
            }
            return st;
        }

        // Classify against the whole fetched window, then dispatch the
        // runnable entries: compute their side effects against the
        // current committed state and queue the artifacts; keep the rest
        // pending.
        let ghost w1 = window@;
        let mut runnable_flags: Vec<bool> = Vec::new();
        let mut j: usize = 0;
        while j < window.len()
            invariant
                j <= window@.len(),
                window@ == w1,
                ready@ == r_tick,
                runnable_flags@.len() == j,
                forall|q: int|
                    0 <= q < j ==> runnable_flags@[q] == spec_runnable(w1, r_tick, w1[q]),
            decreases window@.len() - j,
        {
            let flag = match window[j].2 {
                None => true,
                Some(w) => !in_flight(&window, &ready, w),
            };
            let (p, ins, _) = window[j];
            let is_load = match ins {
                InstrType::I { var, .. } => match var {
                    instr::IInstr::LB => true,
                    instr::IInstr::LH => true,
                    instr::IInstr::LW => true,
                    instr::IInstr::LBU => true,
                    instr::IInstr::LHU => true,
                    _ => false,
                },
                _ => false,
            };
            let flag = flag && !(is_load && store_in_flight_before(&window, &ready, p));
            runnable_flags.push(flag);
            j = j + 1;
        }
        let mut pending: VecDeque<WindowEntry> = VecDeque::new();
        let mut j: usize = 0;
        while j < window.len()
            invariant
                st.wf(),
                st.clean(),
                st@ == m_tick,
                j <= window@.len(),
                window@ == w1,
                runnable_flags@.len() == w1.len(),
                forall|q: int|
                    0 <= q < w1.len() ==> runnable_flags@[q] == spec_runnable(w1, r_tick, w1[q]),
                window_ok(window@),
                window_ok(pending@),
                ready_ok(ready@),
                (pending@, ready@) == spec_dispatch_upto(m_tick, w1, r_tick, j as int),
            decreases window@.len() - j,
        {
            let (p, ins, waits) = window[j];
            if runnable_flags[j] {
                let ds = kernel::kernel(p, ins, &st);
                proof {
                    kernel::lemma_kernel_directives_ok(p, ins, st.regs_view(), st.mem.data@);
                }
                ready.push(OutputArtifact { src_pc: p, instr: ins, finish: ds });
            } else {
                pending.push_back((p, ins, waits));
            }
            j = j + 1;
        }
        window = pending;

        // Retire in program order.
        let ghost m_ret = st@;
        let ghost w_ret = window@;
        let ghost r_ret = ready@;
        loop
            invariant_except_break
                spec_retire(m_ret, w_ret, r_ret) == spec_retire(st@, window@, ready@),
            invariant
                st.wf(),
                st.clean(),
                window_ok(window@),
                ready_ok(ready@),
            ensures
                st.wf(),
                st.clean(),
                window_ok(window@),
                ready_ok(ready@),
                (st@, window@, ready@) == spec_retire(m_ret, w_ret, r_ret),
            decreases ready@.len(),
        {
            let ghost m_it = st@;
            let ghost w_it = window@;
            let ghost r_it = ready@;
            let pc_now = st.regs.pc();
            let idx = match find_ready(&ready, pc_now) {
                Some(idx) => idx,
                None => {
                    proof {
                        assert(spec_retire(m_it, w_it, r_it) == (st@, window@, ready@));
                    }
                    break ;
                },
            };
            let artifact = ready.remove(idx);
            let ds = artifact.finish;
            simulate::apply_set(&mut st, ds);
            let setpc = match (ds.first, ds.second) {
                (kernel::OutputDirective::SetPC(_), _) => true,
                (_, kernel::OutputDirective::SetPC(_)) => true,
                _ => false,
            };
            if setpc {
                window.clear();
                ready.clear();
            }
            let still_running = match st.status {
                Status::Running => true,
                _ => false,
            };
            if !still_running {
                proof {
                    assert(spec_retire(m_it, w_it, r_it) == (st@, window@, ready@));
                }
                break ;
            }
            proof {
                assert(spec_retire(m_it, w_it, r_it) == spec_retire(st@, window@, ready@));
            }
        }
        proof {
            assert((st@, window@, ready@) == spec_sched_tick(m_tick, w_tick, r_tick));
        }
        k = k + 1;
    }
    st
}

} // verus!
