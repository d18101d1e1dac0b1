//! End-to-end scenarios, each run under all three drivers: the final
//! general-purpose registers must agree (the in-order pipeline's counter
//! freezes at the halt word, so counters are compared only where stated).

use riscv::instr::{encode, BInstr, IInstr, InstrType, JInstr, RInstr, SInstr, UInstr};
use riscv::mem::{Memory, Size};
use riscv::program_state::{Exceptions, ProgramState, Status};
use riscv::sim::{in_order, normal, out_of_order};

const HALT: u32 = 0xfeed_feed;
const FUEL: u64 = 10_000;

fn addi(rd: u32, rs1: u32, imm: i32) -> u32 {
    encode(InstrType::I { var: IInstr::ADDI, rs1, rd, sx_imm: imm, zx_imm: (imm as u32) & 0xfff })
}

fn load(var: IInstr, rd: u32, rs1: u32, imm: i32) -> u32 {
    encode(InstrType::I { var, rs1, rd, sx_imm: imm, zx_imm: (imm as u32) & 0xfff })
}

fn store(var: SInstr, rs2: u32, rs1: u32, imm: u32) -> u32 {
    encode(InstrType::S { var, rs1, rs2, imm })
}

fn state(words: &[u32], mem_size: usize) -> ProgramState {
    let mut mem = Memory::new(mem_size);
    let mut at: usize = 0;
    for w in words {
        mem.write(at, *w, Size::WORD).expect("image must fit");
        at += 4;
    }
    ProgramState::new(mem)
}

/// Runs the image under all three drivers, checks that the thirty-two
/// general-purpose registers and the final status agree, and returns the
/// sequential driver's final state.
fn run_all(words: &[u32], mem_size: usize) -> ProgramState {
    let seq = normal::execute(state(words, mem_size), FUEL).expect("image must decode");
    let pipe = in_order::in_order(state(words, mem_size), FUEL);
    let ooo = out_of_order::execute(state(words, mem_size), FUEL);
    for i in 0..32u32 {
        assert_eq!(seq.regs.read(i), pipe.regs.read(i), "in-order register x{}", i);
        assert_eq!(seq.regs.read(i), ooo.regs.read(i), "out-of-order register x{}", i);
    }
    assert_eq!(seq.status, pipe.status);
    assert_eq!(seq.status, ooo.status);
    for a in (0..mem_size).step_by(4) {
        assert_eq!(
            seq.mem.read(a, Size::WORD).unwrap(),
            pipe.mem.read(a, Size::WORD).unwrap(),
            "in-order memory at {}",
            a
        );
        assert_eq!(
            seq.mem.read(a, Size::WORD).unwrap(),
            ooo.mem.read(a, Size::WORD).unwrap(),
            "out-of-order memory at {}",
            a
        );
    }
    seq
}

#[test]
fn addi_chain() {
    let image = [addi(1, 0, 7), addi(2, 1, -3), addi(3, 2, 0), HALT];
    let f = run_all(&image, 0x1000);
    assert_eq!(f.status, Status::Done);
    assert_eq!(f.regs.read(1), 7);
    assert_eq!(f.regs.read(2), 4);
    assert_eq!(f.regs.read(3), 4);
    assert_eq!(f.regs.pc(), 16);
}

#[test]
fn branch_forward() {
    let image = [
        addi(1, 0, 1),
        addi(2, 0, 1),
        encode(InstrType::B { var: BInstr::BEQ, rs1: 1, rs2: 2, imm: 8 }),
        addi(3, 0, 99),
        addi(4, 0, 77),
        HALT,
    ];
    let f = run_all(&image, 0x1000);
    assert_eq!(f.status, Status::Done);
    assert_eq!(f.regs.read(1), 1);
    assert_eq!(f.regs.read(2), 1);
    assert_eq!(f.regs.read(3), 0);
    assert_eq!(f.regs.read(4), 77);
}

#[test]
fn branch_not_taken_falls_through() {
    let image = [
        addi(1, 0, 1),
        encode(InstrType::B { var: BInstr::BNE, rs1: 1, rs2: 1, imm: 8 }),
        addi(3, 0, 99),
        HALT,
    ];
    let f = run_all(&image, 0x1000);
    assert_eq!(f.status, Status::Done);
    assert_eq!(f.regs.read(3), 99);
}

#[test]
fn jal_jalr_round_trip() {
    // The caller jumps over the halt word to the callee, which returns
    // through the link register.
    let image = [
        encode(InstrType::J { var: JInstr::JAL, rd: 1, offset: 8 }),
        HALT,
        addi(10, 0, 42),
        encode(InstrType::I { var: IInstr::JALR, rs1: 1, rd: 0, sx_imm: 0, zx_imm: 0 }),
    ];
    let f = run_all(&image, 0x1000);
    assert_eq!(f.status, Status::Done);
    assert_eq!(f.regs.read(10), 42);
    assert_eq!(f.regs.read(1), 4);
}

#[test]
fn load_store_byte_sign_extension() {
    let image = [
        addi(7, 0, 0xff),
        store(SInstr::SB, 7, 0, 256),
        load(IInstr::LB, 5, 0, 256),
        load(IInstr::LBU, 6, 0, 256),
        HALT,
    ];
    let f = run_all(&image, 0x1000);
    assert_eq!(f.status, Status::Done);
    assert_eq!(f.regs.read(5), 0xffff_ffff);
    assert_eq!(f.regs.read(6), 0x0000_00ff);
}

#[test]
fn lui_auipc() {
    let image = [
        encode(InstrType::U { var: UInstr::LUI, rd: 1, imm: 0x1234_5000 }),
        encode(InstrType::U { var: UInstr::AUIPC, rd: 2, imm: 0 }),
        HALT,
    ];
    let f = run_all(&image, 0x1000);
    assert_eq!(f.status, Status::Done);
    assert_eq!(f.regs.read(1), 0x1234_5000);
    assert_eq!(f.regs.read(2), 4);
}

#[test]
fn memory_fault_tiny_memory() {
    // Two bytes of memory cannot even hold the first fetch: every driver
    // ends with a memory exception and untouched registers.
    let seq = normal::execute(state(&[], 2), FUEL).unwrap();
    let pipe = in_order::in_order(state(&[], 2), FUEL);
    let ooo = out_of_order::execute(state(&[], 2), FUEL);
    for f in [&seq, &pipe, &ooo] {
        assert_eq!(f.status, Status::Exception(Exceptions::Mem));
        for i in 0..32u32 {
            assert_eq!(f.regs.read(i), 0);
        }
    }
}

#[test]
fn store_fault_sets_memory_exception() {
    let image = [store(SInstr::SW, 0, 0, 100), HALT];
    let f = run_all(&image, 64);
    assert_eq!(f.status, Status::Exception(Exceptions::Mem));
}

#[test]
fn sequential_load_fault_is_soft() {
    // In the sequential driver a faulting load leaves its destination
    // untouched and the run continues to the halt.
    let image = [addi(5, 0, 33), load(IInstr::LW, 5, 0, 1000), HALT];
    let f = normal::execute(state(&image, 64), FUEL).unwrap();
    assert_eq!(f.status, Status::Done);
    assert_eq!(f.regs.read(5), 33);
}

#[test]
fn pipelined_load_fault_is_an_exception() {
    let image = [load(IInstr::LW, 5, 0, 1000), HALT];
    let pipe = in_order::in_order(state(&image, 64), FUEL);
    let ooo = out_of_order::execute(state(&image, 64), FUEL);
    assert_eq!(pipe.status, Status::Exception(Exceptions::Mem));
    assert_eq!(ooo.status, Status::Exception(Exceptions::Mem));
}

#[test]
fn undecodable_word_behavior() {
    // An all-zero word decodes to nothing: fatal for the sequential
    // driver, a decode exception for the pipelined ones.
    let image = [addi(1, 0, 5), 0, HALT];
    assert!(normal::execute(state(&image, 64), FUEL).is_err());
    let pipe = in_order::in_order(state(&image, 64), FUEL);
    let ooo = out_of_order::execute(state(&image, 64), FUEL);
    assert_eq!(pipe.status, Status::Exception(Exceptions::Decode));
    assert_eq!(ooo.status, Status::Exception(Exceptions::Decode));
}

#[test]
fn system_word_raises_decode_exception() {
    // ecall is recognized but never executed.
    let image = [0x0000_0073u32, HALT];
    let pipe = in_order::in_order(state(&image, 64), FUEL);
    let ooo = out_of_order::execute(state(&image, 64), FUEL);
    assert_eq!(pipe.status, Status::Exception(Exceptions::Decode));
    assert_eq!(ooo.status, Status::Exception(Exceptions::Decode));
}

#[test]
fn alu_operations_exact_values() {
    let image = [
        // x1 = -1
        addi(1, 0, -1),
        // x2 = x1 >> 4 arithmetic = -1
        encode(InstrType::R { var: RInstr::SRAI, rs1: 1, rs2: 4, rd: 2 }),
        // x3 = x1 >> 4 logical = 0x0fffffff
        encode(InstrType::R { var: RInstr::SRLI, rs1: 1, rs2: 4, rd: 3 }),
        // x4 = (x1 <s x0) = 1
        encode(InstrType::R { var: RInstr::SLT, rs1: 1, rs2: 0, rd: 4 }),
        // x5 = (x1 <u x0) = 0
        encode(InstrType::R { var: RInstr::SLTU, rs1: 1, rs2: 0, rd: 5 }),
        // x6 = 0x80000000
        encode(InstrType::U { var: UInstr::LUI, rd: 6, imm: 0x8000_0000 }),
        // x7 = x6 + x6 = 0 (wraps modulo 2^32)
        encode(InstrType::R { var: RInstr::ADD, rs1: 6, rs2: 6, rd: 7 }),
        // x8 = x0 - x1 = 1
        encode(InstrType::R { var: RInstr::SUB, rs1: 0, rs2: 1, rd: 8 }),
        // x9 = x1 ^ x6 = 0x7fffffff
        encode(InstrType::R { var: RInstr::XOR, rs1: 1, rs2: 6, rd: 9 }),
        // x10 = x1 << 31 = 0x80000000
        encode(InstrType::R { var: RInstr::SLLI, rs1: 1, rs2: 31, rd: 10 }),
        // x11 = (x1 <s 0) via immediate = 1
        encode(InstrType::I { var: IInstr::SLTI, rs1: 1, rd: 11, sx_imm: 0, zx_imm: 0 }),
        // x12 = x1 & 0xf0 = 0xf0
        encode(InstrType::I { var: IInstr::ANDI, rs1: 1, rd: 12, sx_imm: 0xf0, zx_imm: 0xf0 }),
        HALT,
    ];
    let f = run_all(&image, 0x1000);
    assert_eq!(f.status, Status::Done);
    assert_eq!(f.regs.read(2), 0xffff_ffff);
    assert_eq!(f.regs.read(3), 0x0fff_ffff);
    assert_eq!(f.regs.read(4), 1);
    assert_eq!(f.regs.read(5), 0);
    assert_eq!(f.regs.read(7), 0);
    assert_eq!(f.regs.read(8), 1);
    assert_eq!(f.regs.read(9), 0x7fff_ffff);
    assert_eq!(f.regs.read(10), 0x8000_0000);
    assert_eq!(f.regs.read(11), 1);
    assert_eq!(f.regs.read(12), 0xf0);
}

#[test]
fn store_word_then_load_word() {
    let image = [
        encode(InstrType::U { var: UInstr::LUI, rd: 1, imm: 0xabcd_e000 }),
        store(SInstr::SW, 1, 0, 512),
        load(IInstr::LW, 2, 0, 512),
        load(IInstr::LH, 3, 0, 514),
        load(IInstr::LHU, 4, 0, 514),
        HALT,
    ];
    let f = run_all(&image, 0x1000);
    assert_eq!(f.status, Status::Done);
    assert_eq!(f.regs.read(2), 0xabcd_e000);
    assert_eq!(f.regs.read(3), 0xffff_abcd);
    assert_eq!(f.regs.read(4), 0x0000_abcd);
    assert_eq!(f.mem.read(512, Size::WORD).unwrap(), 0xabcd_e000);
}

#[test]
fn writes_to_x0_are_discarded() {
    let image = [addi(0, 0, 55), encode(InstrType::U { var: UInstr::LUI, rd: 0, imm: 0x1000 }), HALT];
    let f = run_all(&image, 0x1000);
    assert_eq!(f.status, Status::Done);
    assert_eq!(f.regs.read(0), 0);
}

#[test]
fn straight_line_pc_advances_one_word_per_instruction() {
    // Four instructions and no control transfer: the sequential counter
    // ends four words past the halt-free prefix, one word past the halt.
    let image = [addi(1, 0, 1), addi(2, 0, 2), addi(3, 0, 3), HALT];
    let f = normal::execute(state(&image, 0x1000), FUEL).unwrap();
    assert_eq!(f.regs.pc(), 16);
}

#[test]
fn backward_branch_loop() {
    // x1 counts 3, 2, 1; the loop body runs three times adding 5 each.
    let image = [
        addi(1, 0, 3),
        // loop head at 4: x2 += 5
        addi(2, 2, 5),
        addi(1, 1, -1),
        // bne x1, x0, -8 (back to the head)
        encode(InstrType::B { var: BInstr::BNE, rs1: 1, rs2: 0, imm: -8 }),
        HALT,
    ];
    let f = run_all(&image, 0x1000);
    assert_eq!(f.status, Status::Done);
    assert_eq!(f.regs.read(1), 0);
    assert_eq!(f.regs.read(2), 15);
}
