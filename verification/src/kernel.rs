//! The semantic kernel: given a decoded instruction and a read-only view
//! of the program state, produces the set of architectural side effects
//! (directives) the instruction causes.  The kernel never writes to state
//! and never aborts: every fault becomes a directive.

use vstd::prelude::*;
use crate::instr::{InstrType, RInstr, IInstr, BInstr, SInstr, UInstr};
use crate::mem::{self, Size};
use crate::program_state::{Exceptions, ProgramState};
use crate::word;

verus! {

/// A single architectural side effect produced by the semantic kernel.
#[derive(Clone, Copy, Debug, PartialEq, Eq, Structural)]
pub enum OutputDirective {
    Nop,
    /// Retarget the program counter.
    SetPC(u32),
    /// Write a value into a register.
    WriteReg(u32, u32),
    /// Store a value of the given width at an address.
    Store(u32, u32, Size),
    /// Raise an exception.
    Exception(Exceptions),
    /// Stop the run.
    Halt,
}

/// The side effects of one instruction: at most one program-counter
/// directive and at most one register or memory directive.
#[derive(Clone, Copy, Debug, PartialEq, Eq, Structural)]
pub struct DirectiveSet {
    pub first: OutputDirective,
    pub second: OutputDirective,
}

/// A directive set holding a single effect.
pub open spec fn single(d: OutputDirective) -> DirectiveSet {
    DirectiveSet { first: d, second: OutputDirective::Nop }
}

/// The operand fields of a decoded instruction name existing registers.
pub open spec fn fields_ok(ins: InstrType) -> bool {
    match ins {
        InstrType::R { rs1, rs2, rd, .. } => rs1 < 32 && rs2 < 32 && rd < 32,
        InstrType::I { rs1, rd, .. } => rs1 < 32 && rd < 32,
        InstrType::S { rs1, rs2, .. } => rs1 < 32 && rs2 < 32,
        InstrType::B { rs1, rs2, .. } => rs1 < 32 && rs2 < 32,
        InstrType::U { rd, .. } => rd < 32,
        InstrType::J { rd, .. } => rd < 32,
        InstrType::Halt => true,
    }
}

/// A directive a driver can apply: any register it writes exists.
pub open spec fn directive_ok(d: OutputDirective) -> bool {
    match d {
        OutputDirective::WriteReg(rd, _) => rd < 32,
        _ => true,
    }
}

/// Whatever the decoder returns has well-formed operand fields: the
/// extracted register indices are five-bit values.
pub proof fn lemma_decode_fields_ok(v: u32)
    ensures
        crate::instr::spec_decode(v) matches Some(ins) ==> fields_ok(ins),
{
    crate::instr::r::lemma_field_bounds(v);
}

/// Both directives of a well-formed instruction's effect set can be
/// applied.
pub proof fn lemma_kernel_directives_ok(pc: u32, ins: InstrType, regs: Seq<u32>, m: Seq<u8>)
    requires
        fields_ok(ins),
    ensures
        directive_ok(spec_kernel(pc, ins, regs, m).first),
        directive_ok(spec_kernel(pc, ins, regs, m).second),
{
}

/// The register-format result: exact two's-complement 32-bit semantics,
/// with shift amounts taken modulo 32 and an arithmetic right shift that
/// replicates the sign bit.
pub open spec fn spec_alu_r(var: RInstr, a: u32, b: u32) -> u32 {
    match var {
        RInstr::ADD => word::wrap_add(a, b),
        RInstr::SUB => word::wrap_sub(a, b),
        RInstr::SLL => a << (b % 32),
        RInstr::SLT => if (a as i32) < (b as i32) {
            1
        } else {
            0
        },
        RInstr::SLTU => if a < b {
            1
        } else {
            0
        },
        RInstr::XOR => a ^ b,
        RInstr::SRL => a >> (b % 32),
        RInstr::SRA => ((a as i32) >> (b % 32)) as u32,
        RInstr::OR => a | b,
        RInstr::AND => a & b,
        RInstr::SLLI => a << (b % 32),
        RInstr::SRLI => a >> (b % 32),
        RInstr::SRAI => ((a as i32) >> (b % 32)) as u32,
    }
}

/// Computes `spec_alu_r`.
pub fn alu_r(var: RInstr, a: u32, b: u32) -> (v: u32)
    ensures
        v == spec_alu_r(var, a, b),
{
    match var {
        RInstr::ADD => a.wrapping_add(b),
        RInstr::SUB => a.wrapping_sub(b),
        RInstr::SLL => a << (b % 32),
        RInstr::SLT => if word::to_signed(a) < word::to_signed(b) {
            1
        } else {
            0
        },
        RInstr::SLTU => if a < b {
            1
        } else {
            0
        },
        RInstr::XOR => a ^ b,
        RInstr::SRL => a >> (b % 32),
        RInstr::SRA => word::from_signed(word::to_signed(a) >> (b % 32)),
        RInstr::OR => a | b,
        RInstr::AND => a & b,
        RInstr::SLLI => a << (b % 32),
        RInstr::SRLI => a >> (b % 32),
        RInstr::SRAI => word::from_signed(word::to_signed(a) >> (b % 32)),
    }
}

/// The second operand of a register-format instruction: the immediate
/// shifts take the literal field as shift amount, the rest read a register.
pub open spec fn spec_r_operand(var: RInstr, rs2: u32, regs: Seq<u32>) -> u32 {
    match var {
        RInstr::SLLI => rs2,
        RInstr::SRLI => rs2,
        RInstr::SRAI => rs2,
        _ => regs[rs2 as int],
    }
}

/// The result of the immediate-format arithmetic, comparison and logical
/// operations; nothing for the other immediate-format sub-operations.
pub open spec fn spec_alu_i(var: IInstr, a: u32, sx_imm: i32, zx_imm: u32) -> Option<u32> {
    match var {
        IInstr::ADDI => Some(word::word_offset(a, sx_imm)),
        IInstr::SLTI => Some(
            if (a as i32) < sx_imm {
                1
            } else {
                0
            },
        ),
        IInstr::SLTIU => Some(
            if a < zx_imm {
                1
            } else {
                0
            },
        ),
        IInstr::XORI => Some(a ^ zx_imm),
        IInstr::ORI => Some(a | zx_imm),
        IInstr::ANDI => Some(a & zx_imm),
        _ => None,
    }
}

/// Computes `spec_alu_i` for the sub-operations it covers.
pub fn alu_i(var: IInstr, a: u32, sx_imm: i32, zx_imm: u32) -> (v: Option<u32>)
    ensures
        v == spec_alu_i(var, a, sx_imm, zx_imm),
{
    match var {
        IInstr::ADDI => Some(a.wrapping_add_signed(sx_imm)),
        IInstr::SLTI => Some(
            if word::to_signed(a) < sx_imm {
                1
            } else {
                0
            },
        ),
        IInstr::SLTIU => Some(
            if a < zx_imm {
                1
            } else {
                0
            },
        ),
        IInstr::XORI => Some(a ^ zx_imm),
        IInstr::ORI => Some(a | zx_imm),
        IInstr::ANDI => Some(a & zx_imm),
        _ => None,
    }
}

/// Whether a branch is taken: equality, signed and unsigned orderings.
pub open spec fn spec_branch_taken(var: BInstr, a: u32, b: u32) -> bool {
    match var {
        BInstr::BEQ => a == b,
        BInstr::BNE => a != b,
        BInstr::BLT => (a as i32) < (b as i32),
        BInstr::BGE => (a as i32) >= (b as i32),
        BInstr::BLTU => a < b,
        BInstr::BGEU => a >= b,
    }
}

/// Decides `spec_branch_taken`.
pub fn branch_taken(var: BInstr, a: u32, b: u32) -> (t: bool)
    ensures
        t == spec_branch_taken(var, a, b),
{
    match var {
        BInstr::BEQ => a == b,
        BInstr::BNE => a != b,
        BInstr::BLT => word::to_signed(a) < word::to_signed(b),
        BInstr::BGE => word::to_signed(a) >= word::to_signed(b),
        BInstr::BLTU => a < b,
        BInstr::BGEU => a >= b,
    }
}

/// The memory width of a store sub-operation.
pub open spec fn spec_store_size(var: SInstr) -> Size {
    match var {
        SInstr::SB => Size::BYTE,
        SInstr::SH => Size::HALF,
        SInstr::SW => Size::WORD,
    }
}

/// Computes `spec_store_size`.
pub fn store_size(var: SInstr) -> (s: Size)
    ensures
        s == spec_store_size(var),
{
    match var {
        SInstr::SB => Size::BYTE,
        SInstr::SH => Size::HALF,
        SInstr::SW => Size::WORD,
    }
}

/// Whether an immediate-format sub-operation belongs to the system and
/// control-register group that is recognized but never executed.
pub open spec fn spec_is_system(var: IInstr) -> bool {
    match var {
        IInstr::ECALL => true,
        IInstr::EBREAK => true,
        IInstr::CSRRW => true,
        IInstr::CSRRS => true,
        IInstr::CSRRC => true,
        IInstr::CSRRWI => true,
        IInstr::CSRRSI => true,
        IInstr::CSRRCI => true,
        _ => false,
    }
}

/// Decides `spec_is_system`.
pub fn is_system(var: IInstr) -> (b: bool)
    ensures
        b == spec_is_system(var),
{
    match var {
        IInstr::ECALL => true,
        IInstr::EBREAK => true,
        IInstr::CSRRW => true,
        IInstr::CSRRS => true,
        IInstr::CSRRC => true,
        IInstr::CSRRWI => true,
        IInstr::CSRRSI => true,
        IInstr::CSRRCI => true,
        _ => false,
    }
}

/// The memory width of a load sub-operation, paired with whether the read
/// value is sign-extended; nothing for the non-load sub-operations.
pub open spec fn spec_load_shape(var: IInstr) -> Option<(Size, bool)> {
    match var {
        IInstr::LB => Some((Size::BYTE, true)),
        IInstr::LH => Some((Size::HALF, true)),
        IInstr::LW => Some((Size::WORD, false)),
        IInstr::LBU => Some((Size::BYTE, false)),
        IInstr::LHU => Some((Size::HALF, false)),
        _ => None,
    }
}

/// The directive of a load: the value read at `rs1 + sx_imm`, sign- or
/// zero-extended to the word width, or a memory exception when the access
/// ends out of bounds.
pub open spec fn spec_load(var: IInstr, rd: u32, a: u32, sx_imm: i32, m: Seq<u8>) -> OutputDirective
    recommends
        spec_load_shape(var) is Some,
{
    let addr = word::word_offset(a, sx_imm);
    let (size, signed) = spec_load_shape(var)->Some_0;
    if addr + size.spec_width() <= m.len() {
        OutputDirective::WriteReg(
            rd,
            if signed {
                mem::read_val_signed(m, addr as int, size) as u32
            } else {
                mem::read_val(m, addr as int, size)
            },
        )
    } else {
        OutputDirective::Exception(Exceptions::Mem)
    }
}

/// The set of directives the instruction at `pc` causes against the given
/// register and memory view: at most one program-counter directive and at
/// most one register or memory directive.  The recognized-but-unimplemented
/// system sub-operations raise a decode exception.
pub open spec fn spec_kernel(pc: u32, ins: InstrType, regs: Seq<u32>, m: Seq<u8>) -> DirectiveSet {
    match ins {
        InstrType::R { var, rs1, rs2, rd } => single(
            OutputDirective::WriteReg(
                rd,
                spec_alu_r(var, regs[rs1 as int], spec_r_operand(var, rs2, regs)),
            ),
        ),
        InstrType::I { var, rs1, rd, sx_imm, zx_imm } => {
            let a = regs[rs1 as int];
            match spec_alu_i(var, a, sx_imm, zx_imm) {
                Some(v) => single(OutputDirective::WriteReg(rd, v)),
                None => match var {
                    IInstr::JALR => DirectiveSet {
                        first: OutputDirective::SetPC(word::word_offset(a, sx_imm) & 0xffff_fffe),
                        second: OutputDirective::WriteReg(rd, word::wrap_add(pc, 4)),
                    },
                    IInstr::LB => single(spec_load(var, rd, a, sx_imm, m)),
                    IInstr::LH => single(spec_load(var, rd, a, sx_imm, m)),
                    IInstr::LW => single(spec_load(var, rd, a, sx_imm, m)),
                    IInstr::LBU => single(spec_load(var, rd, a, sx_imm, m)),
                    IInstr::LHU => single(spec_load(var, rd, a, sx_imm, m)),
                    _ => single(OutputDirective::Exception(Exceptions::Decode)),
                },
            }
        },
        InstrType::S { var, rs1, rs2, imm } => single(
            OutputDirective::Store(
                word::wrap_add(regs[rs1 as int], imm),
                regs[rs2 as int],
                spec_store_size(var),
            ),
        ),
        InstrType::B { var, rs1, rs2, imm } => if spec_branch_taken(
            var,
            regs[rs1 as int],
            regs[rs2 as int],
        ) {
            single(OutputDirective::SetPC(word::word_offset(pc, imm)))
        } else {
            single(OutputDirective::Nop)
        },
        InstrType::U { var, rd, imm } => match var {
            UInstr::LUI => single(OutputDirective::WriteReg(rd, imm)),
            UInstr::AUIPC => single(OutputDirective::WriteReg(rd, word::wrap_add(pc, imm))),
        },
        InstrType::J { rd, offset, .. } => DirectiveSet {
            first: OutputDirective::SetPC(word::word_offset(pc, offset)),
            second: OutputDirective::WriteReg(rd, word::wrap_add(pc, 4)),
        },
        InstrType::Halt => single(OutputDirective::Halt),
    }
}

/// Computes `spec_kernel`: the side effects of `ins` at `pc` against the
/// effective registers and the memory bytes of `ps`.  Pure: `ps` is only
/// read.
pub fn kernel(pc: u32, ins: InstrType, ps: &ProgramState) -> (d: DirectiveSet)
    requires
        ps.wf(),
        fields_ok(ins),
    ensures
        d == spec_kernel(pc, ins, ps.regs_view(), ps.mem.data@),
{
    proof {
        assert forall|k: int| 0 <= k < 32 implies ps.regs_view()[k] == ps.regs.read_spec(k) by {}
    }
    match ins {
        InstrType::R { var, rs1, rs2, rd } => {
            let a = ps.regs.read(rs1);
            let b = match var {
                RInstr::SLLI => rs2,
                RInstr::SRLI => rs2,
                RInstr::SRAI => rs2,
                _ => ps.regs.read(rs2),
            };
            DirectiveSet {
                first: OutputDirective::WriteReg(rd, alu_r(var, a, b)),
                second: OutputDirective::Nop,
            }
        },
        InstrType::I { var, rs1, rd, sx_imm, zx_imm } => {
            let a = ps.regs.read(rs1);
            match alu_i(var, a, sx_imm, zx_imm) {
                Some(v) => DirectiveSet {
                    first: OutputDirective::WriteReg(rd, v),
                    second: OutputDirective::Nop,
                },
                None => match var {
                    IInstr::JALR => DirectiveSet {
                        first: OutputDirective::SetPC(word::offset(a, sx_imm) & 0xffff_fffe),
                        second: OutputDirective::WriteReg(rd, pc.wrapping_add(4)),
                    },
                    IInstr::LB => DirectiveSet {
                        first: load_directive(var, rd, a, sx_imm, ps),
                        second: OutputDirective::Nop,
                    },
                    IInstr::LH => DirectiveSet {
                        first: load_directive(var, rd, a, sx_imm, ps),
                        second: OutputDirective::Nop,
                    },
                    IInstr::LW => DirectiveSet {
                        first: load_directive(var, rd, a, sx_imm, ps),
                        second: OutputDirective::Nop,
                    },
                    IInstr::LBU => DirectiveSet {
                        first: load_directive(var, rd, a, sx_imm, ps),
                        second: OutputDirective::Nop,
                    },
                    IInstr::LHU => DirectiveSet {
                        first: load_directive(var, rd, a, sx_imm, ps),
                        second: OutputDirective::Nop,
                    },
                    _ => DirectiveSet {
                        first: OutputDirective::Exception(Exceptions::Decode),
                        second: OutputDirective::Nop,
                    },
                },
            }
        },
        InstrType::S { var, rs1, rs2, imm } => {
            let base = ps.regs.read(rs1);
            let value = ps.regs.read(rs2);
            DirectiveSet {
                first: OutputDirective::Store(base.wrapping_add(imm), value, store_size(var)),
                second: OutputDirective::Nop,
            }
        },
        InstrType::B { var, rs1, rs2, imm } => {
            let a = ps.regs.read(rs1);
            let b = ps.regs.read(rs2);
            if branch_taken(var, a, b) {
                DirectiveSet {
                    first: OutputDirective::SetPC(word::offset(pc, imm)),
                    second: OutputDirective::Nop,
                }
            } else {
                DirectiveSet { first: OutputDirective::Nop, second: OutputDirective::Nop }
            }
        },
        InstrType::U { var, rd, imm } => match var {
            UInstr::LUI => DirectiveSet {
                first: OutputDirective::WriteReg(rd, imm),
                second: OutputDirective::Nop,
            },
            UInstr::AUIPC => DirectiveSet {
                first: OutputDirective::WriteReg(rd, pc.wrapping_add(imm)),
                second: OutputDirective::Nop,
            },
        },
        InstrType::J { rd, offset, .. } => DirectiveSet {
            first: OutputDirective::SetPC(word::offset(pc, offset)),
            second: OutputDirective::WriteReg(rd, pc.wrapping_add(4)),
        },
        InstrType::Halt => DirectiveSet {
            first: OutputDirective::Halt,
            second: OutputDirective::Nop,
        },
    }
}

/// Computes the directive of a load sub-operation.
fn load_directive(var: IInstr, rd: u32, a: u32, sx_imm: i32, ps: &ProgramState) -> (d:
    OutputDirective)
    requires
        ps.wf(),
        spec_load_shape(var) is Some,
    ensures
        d == spec_load(var, rd, a, sx_imm, ps.mem.data@),
{
    let addr = word::offset(a, sx_imm);
    let loc = word::as_usize(addr);
    let (size, signed) = match var {
        IInstr::LB => (Size::BYTE, true),
        IInstr::LH => (Size::HALF, true),
        IInstr::LW => (Size::WORD, false),
        IInstr::LBU => (Size::BYTE, false),
        IInstr::LHU => (Size::HALF, false),
        _ => (Size::WORD, false),
    };
    if signed {
        match ps.mem.read_signed(loc, size) {
            Ok(v) => OutputDirective::WriteReg(rd, word::from_signed(v)),
            Err(_) => OutputDirective::Exception(Exceptions::Mem),
        }
    } else {
        match ps.mem.read(loc, size) {
            Ok(v) => OutputDirective::WriteReg(rd, v),
            Err(_) => OutputDirective::Exception(Exceptions::Mem),
        }
    }
}

} // verus!
