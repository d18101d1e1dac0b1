//! Pseudo-random instruction streams drawn from the arithmetic, logical,
//! shift and memory subset, run under all three drivers: the final
//! registers, memory and status must agree.  Streams are generated from a
//! fixed linear-congruential sequence, so every run checks the same
//! programs.

use riscv::instr::{encode, IInstr, InstrType, RInstr, SInstr, UInstr};
use riscv::mem::{Memory, Size};
use riscv::program_state::{ProgramState, Status};
use riscv::sim::{in_order, normal, out_of_order};

const HALT: u32 = 0xfeed_feed;
const FUEL: u64 = 50_000;
const MEM_SIZE: usize = 0x2000;

struct Lcg(u64);

impl Lcg {
    fn next(&mut self) -> u64 {
        self.0 = self.0.wrapping_mul(6364136223846793005).wrapping_add(1442695040888963407);
        self.0 >> 16
    }

    fn below(&mut self, n: u64) -> u64 {
        self.next() % n
    }
}

/// One instruction of the subset: every load and store is based on
/// register 0 with a small immediate, so no access can fault and the
/// three models cannot diverge through fault-handling differences.
fn gen_instr(rng: &mut Lcg) -> u32 {
    let rd = rng.below(32) as u32;
    let rs1 = rng.below(32) as u32;
    let rs2 = rng.below(32) as u32;
    let simm = rng.below(4096) as i32 - 2048;
    let zimm = (simm as u32) & 0xfff;
    // Data accesses sit above the program image and within the positive
    // twelve-bit immediate range, so they never fault and never modify
    // the program words.
    let mem_imm = 256 + (rng.below(436) * 4) as u32;
    match rng.below(10) {
        0 => {
            let var = match rng.below(10) {
                0 => RInstr::ADD,
                1 => RInstr::SUB,
                2 => RInstr::SLL,
                3 => RInstr::SLT,
                4 => RInstr::SLTU,
                5 => RInstr::XOR,
                6 => RInstr::SRL,
                7 => RInstr::SRA,
                8 => RInstr::OR,
                _ => RInstr::AND,
            };
            encode(InstrType::R { var, rs1, rs2, rd })
        }
        1 => {
            let var = match rng.below(3) {
                0 => RInstr::SLLI,
                1 => RInstr::SRLI,
                _ => RInstr::SRAI,
            };
            encode(InstrType::R { var, rs1, rs2: rs2 % 32, rd })
        }
        2 | 3 | 4 => {
            let var = match rng.below(6) {
                0 => IInstr::ADDI,
                1 => IInstr::SLTI,
                2 => IInstr::SLTIU,
                3 => IInstr::XORI,
                4 => IInstr::ORI,
                _ => IInstr::ANDI,
            };
            encode(InstrType::I { var, rs1, rd, sx_imm: simm, zx_imm: zimm })
        }
        5 => encode(InstrType::U { var: UInstr::LUI, rd, imm: (rng.next() as u32) & 0xffff_f000 }),
        6 | 7 => {
            let var = match rng.below(3) {
                0 => SInstr::SB,
                1 => SInstr::SH,
                _ => SInstr::SW,
            };
            encode(InstrType::S { var, rs1: 0, rs2, imm: mem_imm })
        }
        _ => {
            let var = match rng.below(5) {
                0 => IInstr::LB,
                1 => IInstr::LH,
                2 => IInstr::LW,
                3 => IInstr::LBU,
                _ => IInstr::LHU,
            };
            encode(InstrType::I {
                var,
                rs1: 0,
                rd,
                sx_imm: mem_imm as i32,
                zx_imm: mem_imm,
            })
        }
    }
}

fn state(words: &[u32]) -> ProgramState {
    let mut mem = Memory::new(MEM_SIZE);
    let mut at: usize = 0;
    for w in words {
        mem.write(at, *w, Size::WORD).expect("image must fit");
        at += 4;
    }
    ProgramState::new(mem)
}

#[test]
fn random_streams_agree_across_drivers() {
    let mut rng = Lcg(0x5eed_5eed);
    for round in 0..25 {
        let mut image: Vec<u32> = Vec::new();
        for _ in 0..40 {
            image.push(gen_instr(&mut rng));
        }
        image.push(HALT);
        let seq = normal::execute(state(&image), FUEL).expect("subset words always decode");
        let pipe = in_order::in_order(state(&image), FUEL);
        let ooo = out_of_order::execute(state(&image), FUEL);
        assert_eq!(seq.status, Status::Done, "round {}", round);
        assert_eq!(pipe.status, Status::Done, "round {}", round);
        assert_eq!(ooo.status, Status::Done, "round {}", round);
        for i in 0..32u32 {
            assert_eq!(seq.regs.read(i), pipe.regs.read(i), "round {} register x{}", round, i);
            assert_eq!(seq.regs.read(i), ooo.regs.read(i), "round {} register x{}", round, i);
        }
        for a in (0..MEM_SIZE).step_by(4) {
            assert_eq!(
                seq.mem.read(a, Size::WORD).unwrap(),
                pipe.mem.read(a, Size::WORD).unwrap(),
                "round {} memory at {}",
                round,
                a
            );
            assert_eq!(
                seq.mem.read(a, Size::WORD).unwrap(),
                ooo.mem.read(a, Size::WORD).unwrap(),
                "round {} memory at {}",
                round,
                a
            );
        }
    }
}
