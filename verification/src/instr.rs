//! Instruction decoding: a pure function from a 32-bit raw word to a tagged
//! instruction record with its extracted operand fields and immediates, and
//! the conservative register-level dependency oracle over decoded
//! instructions.

pub mod r;
pub mod i;
pub mod s;
pub mod b;
pub mod u;
pub mod j;

use vstd::prelude::*;

verus! {

/// Register-format sub-operations (including the immediate shifts, whose
/// shift amount travels in the `rs2` field).
#[derive(Clone, Copy, Debug, PartialEq, Eq, Structural)]
pub enum RInstr {
    SLLI,
    SRLI,
    SRAI,
    ADD,
    SUB,
    SLL,
    SLT,
    SLTU,
    XOR,
    SRL,
    SRA,
    OR,
    AND,
}

/// Immediate-format sub-operations.  The system and control-register group
/// is recognized by the decoder but never executed.
#[derive(Clone, Copy, Debug, PartialEq, Eq, Structural)]
pub enum IInstr {
    JALR,
    LB,
    LH,
    LW,
    LBU,
    LHU,
    ADDI,
    SLTI,
    SLTIU,
    XORI,
    ORI,
    ANDI,
    ECALL,
    EBREAK,
    CSRRW,
    CSRRS,
    CSRRC,
    CSRRWI,
    CSRRSI,
    CSRRCI,
}

/// Branch-format sub-operations.
#[derive(Clone, Copy, Debug, PartialEq, Eq, Structural)]
pub enum BInstr {
    BEQ,
    BNE,
    BLT,
    BGE,
    BLTU,
    BGEU,
}

/// Jump-format sub-operations.
#[derive(Clone, Copy, Debug, PartialEq, Eq, Structural)]
pub enum JInstr {
    JAL,
}

/// Store-format sub-operations.
#[derive(Clone, Copy, Debug, PartialEq, Eq, Structural)]
pub enum SInstr {
    SB,
    SH,
    SW,
}

/// Upper-immediate-format sub-operations.
#[derive(Clone, Copy, Debug, PartialEq, Eq, Structural)]
pub enum UInstr {
    LUI,
    AUIPC,
}

/// A decoded instruction: one tag per format, holding the extracted
/// operand fields and immediates.
#[allow(inconsistent_fields)]
#[derive(Clone, Copy, Debug, PartialEq, Eq, Structural)]
pub enum InstrType {
    R { var: RInstr, rs1: u32, rs2: u32, rd: u32 },
    I { var: IInstr, rs1: u32, rd: u32, sx_imm: i32, zx_imm: u32 },
    S { var: SInstr, rs1: u32, rs2: u32, imm: u32 },
    B { var: BInstr, rs1: u32, rs2: u32, imm: i32 },
    U { var: UInstr, rd: u32, imm: u32 },
    J { var: JInstr, rd: u32, offset: i32 },
    Halt,
}

/// Why a raw word was refused by the decoder: no opcode and function-code
/// combination of the implemented subset matches it.
#[derive(Clone, Copy, Debug, PartialEq, Eq, Structural)]
pub struct DecodeError;

/// The halt sentinel word, reserved by the simulator to stop execution.
pub const HALT_VAL: u32 = 0xfeed_feed;

/// The low seven bits of the word.
pub open spec fn spec_opcode(v: u32) -> u32 {
    v & 0x7f
}

/// Extracts the opcode.
pub fn opcode(v: u32) -> (o: u32)
    ensures
        o == spec_opcode(v),
{
    v & 0x7f
}

/// The register-format record decoded from `v`.
pub open spec fn spec_r_instr(var: RInstr, v: u32) -> InstrType {
    InstrType::R { var, rs1: r::spec_rs1(v), rs2: r::spec_rs2(v), rd: r::spec_rd(v) }
}

/// The immediate-format record decoded from `v`.
pub open spec fn spec_i_instr(var: IInstr, v: u32) -> InstrType {
    InstrType::I {
        var,
        rs1: r::spec_rs1(v),
        rd: r::spec_rd(v),
        sx_imm: i::spec_sx_imm(v),
        zx_imm: i::spec_zx_imm(v),
    }
}

/// The store-format record decoded from `v`.
pub open spec fn spec_s_instr(var: SInstr, v: u32) -> InstrType {
    InstrType::S { var, rs1: r::spec_rs1(v), rs2: r::spec_rs2(v), imm: s::spec_imm(v) }
}

/// The branch-format record decoded from `v`.
pub open spec fn spec_b_instr(var: BInstr, v: u32) -> InstrType {
    InstrType::B { var, rs1: r::spec_rs1(v), rs2: r::spec_rs2(v), imm: b::spec_imm(v) }
}

/// The upper-immediate-format record decoded from `v`.
pub open spec fn spec_u_instr(var: UInstr, v: u32) -> InstrType {
    InstrType::U { var, rd: r::spec_rd(v), imm: u::spec_imm(v) }
}

/// The jump-format record decoded from `v`.
pub open spec fn spec_j_instr(var: JInstr, v: u32) -> InstrType {
    InstrType::J { var, rd: r::spec_rd(v), offset: j::spec_offset(v) }
}

/// The decoded instruction a raw word denotes, or nothing when no opcode
/// and function-code combination of the implemented subset matches.
pub open spec fn spec_decode(v: u32) -> Option<InstrType> {
    if v == HALT_VAL {
        Some(InstrType::Halt)
    } else {
        let opc = spec_opcode(v);
        let f3 = r::spec_funct3(v);
        let f7 = r::spec_funct7(v);
        if opc == 0b1101111 {
            Some(spec_j_instr(JInstr::JAL, v))
        } else if opc == 0b0110111 {
            Some(spec_u_instr(UInstr::LUI, v))
        } else if opc == 0b0010111 {
            Some(spec_u_instr(UInstr::AUIPC, v))
        } else if opc == 0b1100111 {
            if f3 == 0 {
                Some(spec_i_instr(IInstr::JALR, v))
            } else {
                None
            }
        } else if opc == 0b1100011 {
            if f3 == 0b000 {
                Some(spec_b_instr(BInstr::BEQ, v))
            } else if f3 == 0b001 {
                Some(spec_b_instr(BInstr::BNE, v))
            } else if f3 == 0b100 {
                Some(spec_b_instr(BInstr::BLT, v))
            } else if f3 == 0b101 {
                Some(spec_b_instr(BInstr::BGE, v))
            } else if f3 == 0b110 {
                Some(spec_b_instr(BInstr::BLTU, v))
            } else if f3 == 0b111 {
                Some(spec_b_instr(BInstr::BGEU, v))
            } else {
                None
            }
        } else if opc == 0b0000011 {
            if f3 == 0b000 {
                Some(spec_i_instr(IInstr::LB, v))
            } else if f3 == 0b001 {
                Some(spec_i_instr(IInstr::LH, v))
            } else if f3 == 0b010 {
                Some(spec_i_instr(IInstr::LW, v))
            } else if f3 == 0b100 {
                Some(spec_i_instr(IInstr::LBU, v))
            } else if f3 == 0b101 {
                Some(spec_i_instr(IInstr::LHU, v))
            } else {
                None
            }
        } else if opc == 0b0100011 {
            if f3 == 0b000 {
                Some(spec_s_instr(SInstr::SB, v))
            } else if f3 == 0b001 {
                Some(spec_s_instr(SInstr::SH, v))
            } else if f3 == 0b010 {
                Some(spec_s_instr(SInstr::SW, v))
            } else {
                None
            }
        } else if opc == 0b0010011 {
            if f3 == 0b000 {
                Some(spec_i_instr(IInstr::ADDI, v))
            } else if f3 == 0b010 {
                Some(spec_i_instr(IInstr::SLTI, v))
            } else if f3 == 0b011 {
                Some(spec_i_instr(IInstr::SLTIU, v))
            } else if f3 == 0b100 {
                Some(spec_i_instr(IInstr::XORI, v))
            } else if f3 == 0b110 {
                Some(spec_i_instr(IInstr::ORI, v))
            } else if f3 == 0b111 {
                Some(spec_i_instr(IInstr::ANDI, v))
            } else if f3 == 0b001 {
                Some(spec_r_instr(RInstr::SLLI, v))
            } else if f7 == 0 {
                // f3 == 0b101
                Some(spec_r_instr(RInstr::SRLI, v))
            } else {
                Some(spec_r_instr(RInstr::SRAI, v))
            }
        } else if opc == 0b0110011 {
            if f7 == 0 && f3 == 0b000 {
                Some(spec_r_instr(RInstr::ADD, v))
            } else if f7 == 32 && f3 == 0b000 {
                Some(spec_r_instr(RInstr::SUB, v))
            } else if f7 == 0 && f3 == 0b001 {
                Some(spec_r_instr(RInstr::SLL, v))
            } else if f7 == 0 && f3 == 0b010 {
                Some(spec_r_instr(RInstr::SLT, v))
            } else if f7 == 0 && f3 == 0b011 {
                Some(spec_r_instr(RInstr::SLTU, v))
            } else if f7 == 0 && f3 == 0b100 {
                Some(spec_r_instr(RInstr::XOR, v))
            } else if f7 == 0 && f3 == 0b101 {
                Some(spec_r_instr(RInstr::SRL, v))
            } else if f7 == 32 && f3 == 0b101 {
                Some(spec_r_instr(RInstr::SRA, v))
            } else if f7 == 0 && f3 == 0b110 {
                Some(spec_r_instr(RInstr::OR, v))
            } else if f7 == 0 && f3 == 0b111 {
                Some(spec_r_instr(RInstr::AND, v))
            } else {
                None
            }
        } else if opc == 0b1110011 {
            if f3 == 0b000 {
                if i::spec_zx_imm(v) == 0 {
                    Some(spec_i_instr(IInstr::ECALL, v))
                } else if i::spec_zx_imm(v) == 1 {
                    Some(spec_i_instr(IInstr::EBREAK, v))
                } else {
                    None
                }
            } else if f3 == 0b001 {
                Some(spec_i_instr(IInstr::CSRRW, v))
            } else if f3 == 0b010 {
                Some(spec_i_instr(IInstr::CSRRS, v))
            } else if f3 == 0b011 {
                Some(spec_i_instr(IInstr::CSRRC, v))
            } else if f3 == 0b101 {
                Some(spec_i_instr(IInstr::CSRRWI, v))
            } else if f3 == 0b110 {
                Some(spec_i_instr(IInstr::CSRRSI, v))
            } else if f3 == 0b111 {
                Some(spec_i_instr(IInstr::CSRRCI, v))
            } else {
                None
            }
        } else {
            None
        }
    }
}

impl InstrType {
    /// Builds the register-format record from a raw word.
    pub fn r(var: RInstr, v: u32) -> (ins: InstrType)
        ensures
            ins == spec_r_instr(var, v),
    {
        InstrType::R { var, rs1: r::rs1(v), rs2: r::rs2(v), rd: r::rd(v) }
    }

    /// Builds the immediate-format record from a raw word.
    pub fn i(var: IInstr, v: u32) -> (ins: InstrType)
        ensures
            ins == spec_i_instr(var, v),
    {
        InstrType::I { var, rs1: r::rs1(v), rd: r::rd(v), sx_imm: i::sx_imm(v), zx_imm: i::zx_imm(v) }
    }

    /// Builds the store-format record from a raw word.
    pub fn s(var: SInstr, v: u32) -> (ins: InstrType)
        ensures
            ins == spec_s_instr(var, v),
    {
        InstrType::S { var, rs1: r::rs1(v), rs2: r::rs2(v), imm: s::imm(v) }
    }

    /// Builds the branch-format record from a raw word.
    pub fn b(var: BInstr, v: u32) -> (ins: InstrType)
        ensures
            ins == spec_b_instr(var, v),
    {
        InstrType::B { var, rs1: r::rs1(v), rs2: r::rs2(v), imm: b::imm(v) }
    }

    /// Builds the upper-immediate-format record from a raw word.
    pub fn u(var: UInstr, v: u32) -> (ins: InstrType)
        ensures
            ins == spec_u_instr(var, v),
    {
        InstrType::U { var, rd: u::rd(v), imm: u::imm(v) }
    }

    /// Builds the jump-format record from a raw word.
    pub fn j(var: JInstr, v: u32) -> (ins: InstrType)
        ensures
            ins == spec_j_instr(var, v),
    {
        InstrType::J { var, rd: j::rd(v), offset: j::offset(v) }
    }

    /// The halt sentinel word.
    pub fn halt_val() -> (v: u32)
        ensures
            v == HALT_VAL,
    {
        HALT_VAL
    }

    /// Whether this instruction must not be reordered ahead of `on`, under
    /// the conservative register-level model: halts fence everything; jumps
    /// and upper immediates (except the counter-relative one) depend on
    /// nothing; a counter-relative upper immediate depends on prior control
    /// flow; a register-reader depends on any producer of one of its
    /// sources; an indirect jump additionally depends on prior control
    /// flow.
    pub open spec fn spec_depends_on(self, on: InstrType) -> bool {
        match self {
            InstrType::Halt => true,
            InstrType::U { var: UInstr::AUIPC, .. } => match on {
                InstrType::J { .. } => true,
                InstrType::B { .. } => true,
                InstrType::I { var: IInstr::JALR, .. } => true,
                InstrType::Halt => true,
                _ => false,
            },
            InstrType::J { .. } => false,
            InstrType::U { .. } => false,
            InstrType::R { rs1, rs2, .. } => reads_depend(rs1, rs2, on),
            InstrType::S { rs1, rs2, .. } => reads_depend(rs1, rs2, on),
            InstrType::B { rs1, rs2, .. } => reads_depend(rs1, rs2, on),
            InstrType::I { var: IInstr::JALR, rs1, .. } => match on {
                InstrType::J { .. } => true,
                InstrType::B { .. } => true,
                InstrType::I { var: IInstr::JALR, .. } => true,
                InstrType::S { .. } => false,
                InstrType::R { rd, .. } => rd == rs1,
                InstrType::I { rd, .. } => rd == rs1,
                InstrType::U { rd, .. } => rd == rs1,
                InstrType::Halt => true,
            },
            InstrType::I { rs1, .. } => match on {
                InstrType::S { .. } => false,
                InstrType::B { .. } => false,
                InstrType::R { rd, .. } => rd == rs1,
                InstrType::I { rd, .. } => rd == rs1,
                InstrType::U { rd, .. } => rd == rs1,
                InstrType::J { rd, .. } => rd == rs1,
                InstrType::Halt => true,
            },
        }
    }

    /// Decides `spec_depends_on`.
    pub fn depends_on(&self, on: &InstrType) -> (d: bool)
        ensures
            d == self.spec_depends_on(*on),
    {
        match self {
            InstrType::Halt => true,
            InstrType::U { var: UInstr::AUIPC, .. } => match on {
                InstrType::J { .. } => true,
                InstrType::B { .. } => true,
                InstrType::I { var: IInstr::JALR, .. } => true,
                InstrType::Halt => true,
                _ => false,
            },
            InstrType::J { .. } => false,
            InstrType::U { .. } => false,
            InstrType::R { rs1, rs2, .. } => reads_depend_on(*rs1, *rs2, on),
            InstrType::S { rs1, rs2, .. } => reads_depend_on(*rs1, *rs2, on),
            InstrType::B { rs1, rs2, .. } => reads_depend_on(*rs1, *rs2, on),
            InstrType::I { var: IInstr::JALR, rs1, .. } => match on {
                InstrType::J { .. } => true,
                InstrType::B { .. } => true,
                InstrType::I { var: IInstr::JALR, .. } => true,
                InstrType::S { .. } => false,
                InstrType::R { rd, .. } => rd == rs1,
                InstrType::I { rd, .. } => rd == rs1,
                InstrType::U { rd, .. } => rd == rs1,
                InstrType::Halt => true,
            },
            InstrType::I { rs1, .. } => match on {
                InstrType::S { .. } => false,
                InstrType::B { .. } => false,
                InstrType::R { rd, .. } => rd == rs1,
                InstrType::I { rd, .. } => rd == rs1,
                InstrType::U { rd, .. } => rd == rs1,
                InstrType::J { rd, .. } => rd == rs1,
                InstrType::Halt => true,
            },
        }
    }
}

/// Whether an instruction reading `rs1` and `rs2` depends on `on`: yes for
/// a halt, and for any producer whose destination is one of the sources.
pub open spec fn reads_depend(rs1: u32, rs2: u32, on: InstrType) -> bool {
    match on {
        InstrType::S { .. } => false,
        InstrType::B { .. } => false,
        InstrType::R { rd, .. } => rd == rs1 || rd == rs2,
        InstrType::I { rd, .. } => rd == rs1 || rd == rs2,
        InstrType::U { rd, .. } => rd == rs1 || rd == rs2,
        InstrType::J { rd, .. } => rd == rs1 || rd == rs2,
        InstrType::Halt => true,
    }
}

/// Decides `reads_depend`.
fn reads_depend_on(rs1: u32, rs2: u32, on: &InstrType) -> (d: bool)
    ensures
        d == reads_depend(rs1, rs2, *on),
{
    match on {
        InstrType::S { .. } => false,
        InstrType::B { .. } => false,
        InstrType::R { rd, .. } => *rd == rs1 || *rd == rs2,
        InstrType::I { rd, .. } => *rd == rs1 || *rd == rs2,
        InstrType::U { rd, .. } => *rd == rs1 || *rd == rs2,
        InstrType::J { rd, .. } => *rd == rs1 || *rd == rs2,
        InstrType::Halt => true,
    }
}

/// The opcode a register-format sub-operation encodes under.
pub open spec fn spec_r_opcode(var: RInstr) -> u32 {
    match var {
        RInstr::SLLI => 0b0010011,
        RInstr::SRLI => 0b0010011,
        RInstr::SRAI => 0b0010011,
        _ => 0b0110011,
    }
}

/// The `funct3` code of a register-format sub-operation.
pub open spec fn spec_r_funct3(var: RInstr) -> u32 {
    match var {
        RInstr::ADD => 0b000,
        RInstr::SUB => 0b000,
        RInstr::SLL => 0b001,
        RInstr::SLT => 0b010,
        RInstr::SLTU => 0b011,
        RInstr::XOR => 0b100,
        RInstr::SRL => 0b101,
        RInstr::SRA => 0b101,
        RInstr::OR => 0b110,
        RInstr::AND => 0b111,
        RInstr::SLLI => 0b001,
        RInstr::SRLI => 0b101,
        RInstr::SRAI => 0b101,
    }
}

/// The `funct7` code of a register-format sub-operation.
pub open spec fn spec_r_funct7(var: RInstr) -> u32 {
    match var {
        RInstr::SUB => 32,
        RInstr::SRA => 32,
        RInstr::SRAI => 32,
        _ => 0,
    }
}

/// The opcode an immediate-format sub-operation encodes under.
pub open spec fn spec_i_opcode(var: IInstr) -> u32 {
    match var {
        IInstr::JALR => 0b1100111,
        IInstr::LB => 0b0000011,
        IInstr::LH => 0b0000011,
        IInstr::LW => 0b0000011,
        IInstr::LBU => 0b0000011,
        IInstr::LHU => 0b0000011,
        IInstr::ADDI => 0b0010011,
        IInstr::SLTI => 0b0010011,
        IInstr::SLTIU => 0b0010011,
        IInstr::XORI => 0b0010011,
        IInstr::ORI => 0b0010011,
        IInstr::ANDI => 0b0010011,
        _ => 0b1110011,
    }
}

/// The `funct3` code of an immediate-format sub-operation.
pub open spec fn spec_i_funct3(var: IInstr) -> u32 {
    match var {
        IInstr::JALR => 0b000,
        IInstr::LB => 0b000,
        IInstr::LH => 0b001,
        IInstr::LW => 0b010,
        IInstr::LBU => 0b100,
        IInstr::LHU => 0b101,
        IInstr::ADDI => 0b000,
        IInstr::SLTI => 0b010,
        IInstr::SLTIU => 0b011,
        IInstr::XORI => 0b100,
        IInstr::ORI => 0b110,
        IInstr::ANDI => 0b111,
        IInstr::ECALL => 0b000,
        IInstr::EBREAK => 0b000,
        IInstr::CSRRW => 0b001,
        IInstr::CSRRS => 0b010,
        IInstr::CSRRC => 0b011,
        IInstr::CSRRWI => 0b101,
        IInstr::CSRRSI => 0b110,
        IInstr::CSRRCI => 0b111,
    }
}

/// The `funct3` code of a branch-format sub-operation.
pub open spec fn spec_b_funct3(var: BInstr) -> u32 {
    match var {
        BInstr::BEQ => 0b000,
        BInstr::BNE => 0b001,
        BInstr::BLT => 0b100,
        BInstr::BGE => 0b101,
        BInstr::BLTU => 0b110,
        BInstr::BGEU => 0b111,
    }
}

/// The `funct3` code of a store-format sub-operation.
pub open spec fn spec_s_funct3(var: SInstr) -> u32 {
    match var {
        SInstr::SB => 0b000,
        SInstr::SH => 0b001,
        SInstr::SW => 0b010,
    }
}

/// The opcode an upper-immediate-format sub-operation encodes under.
pub open spec fn spec_u_opcode(var: UInstr) -> u32 {
    match var {
        UInstr::LUI => 0b0110111,
        UInstr::AUIPC => 0b0010111,
    }
}

/// A decoded record whose fields are exactly what field extraction can
/// produce: register indices are five bits, immediates lie in their
/// encoded ranges, and the two immediate forms agree.
pub open spec fn decoded_wf(ins: InstrType) -> bool {
    match ins {
        InstrType::R { rs1, rs2, rd, .. } => rs1 < 32 && rs2 < 32 && rd < 32,
        InstrType::I { var, rs1, rd, sx_imm, zx_imm } => {
            &&& rs1 < 32
            &&& rd < 32
            &&& zx_imm < 4096
            &&& sx_imm as int == if zx_imm < 2048 {
                zx_imm as int
            } else {
                zx_imm as int - 4096
            }
            &&& (var is ECALL ==> zx_imm == 0)
            &&& (var is EBREAK ==> zx_imm == 1)
        },
        InstrType::S { rs1, rs2, imm, .. } => rs1 < 32 && rs2 < 32 && imm < 4096,
        InstrType::B { rs1, rs2, imm, .. } => rs1 < 32 && rs2 < 32 && -4096 <= imm <= 4094
            && imm % 2 == 0,
        InstrType::U { rd, imm, .. } => rd < 32 && imm & 0xfff == 0,
        InstrType::J { rd, offset, .. } => rd < 32 && -0x10_0000 <= offset <= 0x10_0000 - 2
            && offset % 2 == 0,
        InstrType::Halt => true,
    }
}

/// The raw word a decoded record's fields encode back into, with the
/// canonical function codes of its sub-operation.
pub open spec fn spec_encode(ins: InstrType) -> u32 {
    match ins {
        InstrType::R { var, rs1, rs2, rd } => spec_r_opcode(var) | (rd << 7) | (spec_r_funct3(var)
            << 12) | (rs1 << 15) | (rs2 << 20) | (spec_r_funct7(var) << 25),
        InstrType::I { var, rs1, rd, zx_imm, .. } => spec_i_opcode(var) | (rd << 7) | (
        spec_i_funct3(var) << 12) | (rs1 << 15) | (zx_imm << 20),
        InstrType::S { var, rs1, rs2, imm } => 0b0100011 | ((imm & 0x1f) << 7) | (spec_s_funct3(
            var,
        ) << 12) | (rs1 << 15) | (rs2 << 20) | ((imm >> 5) << 25),
        InstrType::B { var, rs1, rs2, imm } => {
            let bits = (imm as u32) & 0x1fff;
            0b1100011 | (((bits >> 11) & 1) << 7) | (((bits >> 1) & 0xf) << 8) | (spec_b_funct3(
                var,
            ) << 12) | (rs1 << 15) | (rs2 << 20) | (((bits >> 5) & 0x3f) << 25) | (((bits >> 12)
                & 1) << 31)
        },
        InstrType::U { var, rd, imm } => spec_u_opcode(var) | (rd << 7) | imm,
        InstrType::J { rd, offset, .. } => {
            let bits = (offset as u32) & 0x1f_ffff;
            0b1101111 | (rd << 7) | (bits & 0xff000) | (((bits >> 11) & 1) << 20) | (((bits >> 1)
                & 0x3ff) << 21) | (((bits >> 20) & 1) << 31)
        },
        InstrType::Halt => HALT_VAL,
    }
}

/// Decodes a raw word into a tagged instruction record; refuses, rather
/// than aborting, any unmapped opcode and function-code combination.
pub fn decode(instr: u32) -> (res: Result<InstrType, DecodeError>)
    ensures
        res matches Ok(ins) ==> spec_decode(instr) == Some(ins),
        res is Err <==> spec_decode(instr) is None,
{
    let v = instr;
    if v == InstrType::halt_val() {
        return Ok(InstrType::Halt);
    }
    let ins = match opcode(v) {
        0b1101111 => InstrType::j(JInstr::JAL, v),
        0b0110111 => InstrType::u(UInstr::LUI, v),
        0b0010111 => InstrType::u(UInstr::AUIPC, v),
        0b1100111 if r::funct3(v) == 0 => InstrType::i(IInstr::JALR, v),
        0b1100011 => match r::funct3(v) {
            0b000 => InstrType::b(BInstr::BEQ, v),
            0b001 => InstrType::b(BInstr::BNE, v),
            0b100 => InstrType::b(BInstr::BLT, v),
            0b101 => InstrType::b(BInstr::BGE, v),
            0b110 => InstrType::b(BInstr::BLTU, v),
            0b111 => InstrType::b(BInstr::BGEU, v),
            _ => {
                return Err(DecodeError);
            },
        },
        0b0000011 => match r::funct3(v) {
            0b000 => InstrType::i(IInstr::LB, v),
            0b001 => InstrType::i(IInstr::LH, v),
            0b010 => InstrType::i(IInstr::LW, v),
            0b100 => InstrType::i(IInstr::LBU, v),
            0b101 => InstrType::i(IInstr::LHU, v),
            _ => {
                return Err(DecodeError);
            },
        },
        0b0100011 => match r::funct3(v) {
            0b000 => InstrType::s(SInstr::SB, v),
            0b001 => InstrType::s(SInstr::SH, v),
            0b010 => InstrType::s(SInstr::SW, v),
            _ => {
                return Err(DecodeError);
            },
        },
        0b0010011 => match r::funct3(v) {
            0b000 => InstrType::i(IInstr::ADDI, v),
            0b010 => InstrType::i(IInstr::SLTI, v),
            0b011 => InstrType::i(IInstr::SLTIU, v),
            0b100 => InstrType::i(IInstr::XORI, v),
            0b110 => InstrType::i(IInstr::ORI, v),
            0b111 => InstrType::i(IInstr::ANDI, v),
            0b001 => InstrType::r(RInstr::SLLI, v),
            _ => {
                // funct3 == 0b101
                if r::funct7(v) == 0 {
                    InstrType::r(RInstr::SRLI, v)
                } else {
                    InstrType::r(RInstr::SRAI, v)
                }
            },
        },
        0b0110011 => match (r::funct7(v), r::funct3(v)) {
            (0, 0b000) => InstrType::r(RInstr::ADD, v),
            (32, 0b000) => InstrType::r(RInstr::SUB, v),
            (0, 0b001) => InstrType::r(RInstr::SLL, v),
            (0, 0b010) => InstrType::r(RInstr::SLT, v),
            (0, 0b011) => InstrType::r(RInstr::SLTU, v),
            (0, 0b100) => InstrType::r(RInstr::XOR, v),
            (0, 0b101) => InstrType::r(RInstr::SRL, v),
            (32, 0b101) => InstrType::r(RInstr::SRA, v),
            (0, 0b110) => InstrType::r(RInstr::OR, v),
            (0, 0b111) => InstrType::r(RInstr::AND, v),
            _ => {
                return Err(DecodeError);
            },
        },
        0b1110011 => match r::funct3(v) {
            0b000 => match i::zx_imm(v) {
                0 => InstrType::i(IInstr::ECALL, v),
                1 => InstrType::i(IInstr::EBREAK, v),
                _ => {
                    return Err(DecodeError);
                },
            },
            0b001 => InstrType::i(IInstr::CSRRW, v),
            0b010 => InstrType::i(IInstr::CSRRS, v),
            0b011 => InstrType::i(IInstr::CSRRC, v),
            0b101 => InstrType::i(IInstr::CSRRWI, v),
            0b110 => InstrType::i(IInstr::CSRRSI, v),
            0b111 => InstrType::i(IInstr::CSRRCI, v),
            _ => {
                return Err(DecodeError);
            },
        },
        _ => {
            return Err(DecodeError);
        },
    };
    Ok(ins)
}

/// The halt sentinel's opcode bits, which no encodable format uses.
proof fn lemma_halt_opcode()
    by (bit_vector)
    ensures
        0xfeedfeedu32 & 0x7f == 0x6d,
{
}

/// Field extraction inverts field placement for the register and
/// immediate word layouts, and the halt sentinel's opcode bits.
proof fn lemma_fields_of_r_word(opc: u32, f3: u32, f7: u32, rs1: u32, rs2: u32, rd: u32)
    by (bit_vector)
    requires
        opc < 128,
        f3 < 8,
        f7 < 128,
        rs1 < 32,
        rs2 < 32,
        rd < 32,
    ensures
        ({
            let v = opc | (rd << 7) | (f3 << 12) | (rs1 << 15) | (rs2 << 20) | (f7 << 25);
            v & 0x7f == opc && (v >> 7) & 0x1f == rd && (v >> 12) & 0b111 == f3 && (v >> 15)
                & 0x1f == rs1 && (v >> 20) & 0x1f == rs2 && v >> 25 == f7
        }),
        0xfeedfeedu32 & 0x7f == 0x6d,
{
}

/// Field extraction inverts field placement for the immediate word
/// layout.
proof fn lemma_fields_of_i_word(opc: u32, f3: u32, rs1: u32, rd: u32, zx: u32)
    by (bit_vector)
    requires
        opc < 128,
        f3 < 8,
        rs1 < 32,
        rd < 32,
        zx < 4096,
    ensures
        ({
            let v = opc | (rd << 7) | (f3 << 12) | (rs1 << 15) | (zx << 20);
            v & 0x7f == opc && (v >> 7) & 0x1f == rd && (v >> 12) & 0b111 == f3 && (v >> 15)
                & 0x1f == rs1 && v >> 20 == zx
        }),
{
}

/// Field extraction inverts field placement for the store word layout.
proof fn lemma_fields_of_s_word(opc: u32, f3: u32, rs1: u32, rs2: u32, imm: u32)
    by (bit_vector)
    requires
        opc < 128,
        f3 < 8,
        rs1 < 32,
        rs2 < 32,
        imm < 4096,
    ensures
        ({
            let v = opc | ((imm & 0x1f) << 7) | (f3 << 12) | (rs1 << 15) | (rs2 << 20) | ((imm
                >> 5) << 25);
            v & 0x7f == opc && (v >> 12) & 0b111 == f3 && (v >> 15) & 0x1f == rs1 && (v >> 20)
                & 0x1f == rs2 && (((v >> 25) << 5) | ((v >> 7) & 0x1f)) == imm
        }),
{
}

/// Field extraction inverts field placement for the branch word layout.
proof fn lemma_fields_of_b_word(opc: u32, f3: u32, rs1: u32, rs2: u32, bits: u32)
    by (bit_vector)
    requires
        opc < 128,
        f3 < 8,
        rs1 < 32,
        rs2 < 32,
        bits < 0x2000,
        bits % 2 == 0,
    ensures
        ({
            let v = opc | (((bits >> 11) & 1) << 7) | (((bits >> 1) & 0xf) << 8) | (f3 << 12) | (
            rs1 << 15) | (rs2 << 20) | (((bits >> 5) & 0x3f) << 25) | (((bits >> 12) & 1) << 31);
            v & 0x7f == opc && (v >> 12) & 0b111 == f3 && (v >> 15) & 0x1f == rs1 && (v >> 20)
                & 0x1f == rs2 && ((((v >> 31) & 1) << 12) | (((v >> 7) & 1) << 11) | (((v >> 25)
                & 0x3f) << 5) | (((v >> 8) & 0xf) << 1)) == bits
        }),
{
}

/// The branch displacement's raw bits determine it and recover it.
proof fn lemma_b_imm_bits(imm: i32)
    by (bit_vector)
    requires
        -4096 <= imm <= 4094,
        imm % 2 == 0,
    ensures
        ({
            let bits = (imm as u32) & 0x1fff;
            bits < 0x2000 && bits % 2 == 0 && (bits < 0x1000 ==> bits as i32 == imm) && (bits
                >= 0x1000 ==> (bits - 0x2000) as i32 == imm)
        }),
{
}

/// Field extraction inverts field placement for the upper-immediate word
/// layout.
proof fn lemma_fields_of_u_word(opc: u32, rd: u32, imm: u32)
    by (bit_vector)
    requires
        opc < 128,
        rd < 32,
        imm & 0xfff == 0,
    ensures
        ({
            let v = opc | (rd << 7) | imm;
            v & 0x7f == opc && (v >> 7) & 0x1f == rd && v & 0xffff_f000 == imm
        }),
{
}

/// Field extraction inverts field placement for the jump word layout.
proof fn lemma_fields_of_j_word(opc: u32, rd: u32, bits: u32)
    by (bit_vector)
    requires
        opc < 128,
        rd < 32,
        bits < 0x20_0000,
        bits % 2 == 0,
    ensures
        ({
            let v = opc | (rd << 7) | (bits & 0xff000) | (((bits >> 11) & 1) << 20) | (((bits
                >> 1) & 0x3ff) << 21) | (((bits >> 20) & 1) << 31);
            v & 0x7f == opc && (v >> 7) & 0x1f == rd && ((((v >> 31) & 1) << 20) | (v & 0xff000)
                | (((v >> 20) & 1) << 11) | ((v >> 20) & 0x7fe)) == bits
        }),
{
}

/// The jump displacement's raw bits determine it and recover it.
proof fn lemma_j_offset_bits(offset: i32)
    by (bit_vector)
    requires
        -0x10_0000 <= offset <= 0x10_0000 - 2,
        offset % 2 == 0,
    ensures
        ({
            let bits = (offset as u32) & 0x1f_ffff;
            bits < 0x20_0000 && bits % 2 == 0 && (bits < 0x10_0000 ==> bits as i32 == offset) && (
            bits >= 0x10_0000 ==> (bits - 0x20_0000) as i32 == offset)
        }),
{
}

/// Whatever the decoder returns is a well-formed record: its fields are
/// exactly what field extraction can produce.
pub proof fn lemma_decode_wf(v: u32)
    ensures
        spec_decode(v) matches Some(ins) ==> decoded_wf(ins),
{
    r::lemma_field_bounds(v);
    i::lemma_imm_relation(v);
    s::lemma_imm_bound(v);
    b::lemma_imm_shape(v);
    u::lemma_imm_aligned(v);
    j::lemma_offset_shape(v);
}

/// Re-encoding a well-formed record's fields gives a word the decoder
/// maps back to the very same record.
pub proof fn lemma_encode_decode(ins: InstrType)
    requires
        decoded_wf(ins),
    ensures
        spec_decode(spec_encode(ins)) == Some(ins),
{
    let v = spec_encode(ins);
    lemma_halt_opcode();
    match ins {
        InstrType::R { var, rs1, rs2, rd } => {
            lemma_fields_of_r_word(
                spec_r_opcode(var),
                spec_r_funct3(var),
                spec_r_funct7(var),
                rs1,
                rs2,
                rd,
            );
        },
        InstrType::I { var, rs1, rd, sx_imm, zx_imm } => {
            lemma_fields_of_i_word(spec_i_opcode(var), spec_i_funct3(var), rs1, rd, zx_imm);
            i::lemma_imm_relation(v);
        },
        InstrType::S { var, rs1, rs2, imm } => {
            lemma_fields_of_s_word(0b0100011, spec_s_funct3(var), rs1, rs2, imm);
        },
        InstrType::B { var, rs1, rs2, imm } => {
            lemma_b_imm_bits(imm);
            lemma_fields_of_b_word(0b1100011, spec_b_funct3(var), rs1, rs2, (imm as u32) & 0x1fff);
        },
        InstrType::U { var, rd, imm } => {
            lemma_fields_of_u_word(spec_u_opcode(var), rd, imm);
        },
        InstrType::J { rd, offset, .. } => {
            lemma_j_offset_bits(offset);
            lemma_fields_of_j_word(0b1101111, rd, (offset as u32) & 0x1f_ffff);
        },
        InstrType::Halt => {},
    }
}

/// Field extraction is stable: if a raw word decodes, then re-encoding
/// the decoded record's fields into a raw word and decoding again yields
/// the same record.
pub proof fn lemma_decode_encode_roundtrip(w: u32)
    requires
        spec_decode(w) is Some,
    ensures
        spec_decode(spec_encode(spec_decode(w)->Some_0)) == spec_decode(w),
{
    lemma_decode_wf(w);
    lemma_encode_decode(spec_decode(w)->Some_0);
}

/// Computes `spec_encode`: the raw word a decoded record's fields encode
/// back into.
pub fn encode(ins: InstrType) -> (v: u32)
    ensures
        v == spec_encode(ins),
{
    match ins {
        InstrType::R { var, rs1, rs2, rd } => {
            let opc: u32 = match var {
                RInstr::SLLI => 0b0010011,
                RInstr::SRLI => 0b0010011,
                RInstr::SRAI => 0b0010011,
                _ => 0b0110011,
            };
            let f3: u32 = match var {
                RInstr::ADD => 0b000,
                RInstr::SUB => 0b000,
                RInstr::SLL => 0b001,
                RInstr::SLT => 0b010,
                RInstr::SLTU => 0b011,
                RInstr::XOR => 0b100,
                RInstr::SRL => 0b101,
                RInstr::SRA => 0b101,
                RInstr::OR => 0b110,
                RInstr::AND => 0b111,
                RInstr::SLLI => 0b001,
                RInstr::SRLI => 0b101,
                RInstr::SRAI => 0b101,
            };
            let f7: u32 = match var {
                RInstr::SUB => 32,
                RInstr::SRA => 32,
                RInstr::SRAI => 32,
                _ => 0,
            };
            opc | (rd << 7u32) | (f3 << 12u32) | (rs1 << 15u32) | (rs2 << 20u32) | (f7 << 25u32)
        },
        InstrType::I { var, rs1, rd, zx_imm, .. } => {
            let opc: u32 = match var {
                IInstr::JALR => 0b1100111,
                IInstr::LB => 0b0000011,
                IInstr::LH => 0b0000011,
                IInstr::LW => 0b0000011,
                IInstr::LBU => 0b0000011,
                IInstr::LHU => 0b0000011,
                IInstr::ADDI => 0b0010011,
                IInstr::SLTI => 0b0010011,
                IInstr::SLTIU => 0b0010011,
                IInstr::XORI => 0b0010011,
                IInstr::ORI => 0b0010011,
                IInstr::ANDI => 0b0010011,
                _ => 0b1110011,
            };
            let f3: u32 = match var {
                IInstr::JALR => 0b000,
                IInstr::LB => 0b000,
                IInstr::LH => 0b001,
                IInstr::LW => 0b010,
                IInstr::LBU => 0b100,
                IInstr::LHU => 0b101,
                IInstr::ADDI => 0b000,
                IInstr::SLTI => 0b010,
                IInstr::SLTIU => 0b011,
                IInstr::XORI => 0b100,
                IInstr::ORI => 0b110,
                IInstr::ANDI => 0b111,
                IInstr::ECALL => 0b000,
                IInstr::EBREAK => 0b000,
                IInstr::CSRRW => 0b001,
                IInstr::CSRRS => 0b010,
                IInstr::CSRRC => 0b011,
                IInstr::CSRRWI => 0b101,
                IInstr::CSRRSI => 0b110,
                IInstr::CSRRCI => 0b111,
            };
            opc | (rd << 7u32) | (f3 << 12u32) | (rs1 << 15u32) | (zx_imm << 20u32)
        },
        InstrType::S { var, rs1, rs2, imm } => {
            let f3: u32 = match var {
                SInstr::SB => 0b000,
                SInstr::SH => 0b001,
                SInstr::SW => 0b010,
            };
            0b0100011 | ((imm & 0x1f) << 7u32) | (f3 << 12u32) | (rs1 << 15u32) | (rs2 << 20u32)
                | ((imm >> 5u32) << 25u32)
        },
        InstrType::B { var, rs1, rs2, imm } => {
            let f3: u32 = match var {
                BInstr::BEQ => 0b000,
                BInstr::BNE => 0b001,
                BInstr::BLT => 0b100,
                BInstr::BGE => 0b101,
                BInstr::BLTU => 0b110,
                BInstr::BGEU => 0b111,
            };
            let bits: u32 = (#[verifier::truncate] (imm as u32)) & 0x1fff;
            0b1100011 | (((bits >> 11u32) & 1) << 7u32) | (((bits >> 1u32) & 0xf) << 8u32) | (f3
                << 12u32) | (rs1 << 15u32) | (rs2 << 20u32) | (((bits >> 5u32) & 0x3f) << 25u32)
                | (((bits >> 12u32) & 1) << 31u32)
        },
        InstrType::U { var, rd, imm } => {
            let opc: u32 = match var {
                UInstr::LUI => 0b0110111,
                UInstr::AUIPC => 0b0010111,
            };
            opc | (rd << 7u32) | imm
        },
        InstrType::J { rd, offset, .. } => {
            let bits: u32 = (#[verifier::truncate] (offset as u32)) & 0x1f_ffff;
            0b1101111 | (rd << 7u32) | (bits & 0xff000) | (((bits >> 11u32) & 1) << 20u32) | (((
            bits >> 1u32) & 0x3ff) << 21u32) | (((bits >> 20u32) & 1) << 31u32)
        },
        InstrType::Halt => HALT_VAL,
    }
}

} // verus!
