use riscv::instr::b;
use riscv::instr::j;
use riscv::instr::{decode, encode, InstrType, IInstr, RInstr, SInstr, BInstr, UInstr, JInstr};

#[test]
fn b_imm_test() {
    let v: u32 = 0b1111111_00000_00000_000_11111_0000000;
    assert_eq!(b::imm(v), -2);

    let v: u32 = 0b0111111_00000_00000_000_11111_0000000;
    assert_eq!(b::imm(v), 0b0111111111110);
    assert_eq!(b::imm(v) >> 12, 0);

    let v: u32 = 0b1111111_00000_00000_000_11110_0000000;
    assert_eq!(b::imm(v) & 0x1FFF, 0b1011111111110);
    assert_eq!(b::imm(v) >> 12, -1);

    let v: u32 = 0b1000000_00000_00000_000_11111_0000000;
    assert_eq!(b::imm(v) & 0xFFF, 0b100000011110, "0b{:b}", b::imm(v));
    assert_eq!(b::imm(v) >> 12, -1);

    let v: u32 = 0b1111111_00000_00000_000_00001_0000000;
    assert_eq!(b::imm(v) & 0xFFF, 0b111111100000);
    assert_eq!(b::imm(v) >> 12, -1)
}

#[test]
fn test_imm() {
    let v: u32 = 0b1_1111111111_1_11111111_000000000000;
    assert_eq!(j::offset(v), -2, "0b{:b}", j::offset(v));

    let v: u32 = 0b0_1111111111_1_11111111_000000000000;
    assert_eq!(j::offset(v), 0x7FFFF << 1, "0b{:b}", j::offset(v));
    assert_eq!(j::offset(v) >> 20, 0);

    let v: u32 = 0b1_0000000000_1_11111111_000000000000;
    assert_eq!(j::offset(v) & 0xFFFFF, 0b11111111_1_00000000000);
    assert_eq!(j::offset(v) >> 20, -1, "{:b}", j::offset(v) >> 20);

    let v: u32 = 0b1_1111111111_0_11111111_000000000000;
    assert_eq!(j::offset(v) & 0xFFFFF, 0b11111111_0_1111111111_0, "0b{:b}", j::offset(v) & 0xFFFFF);
    assert_eq!(j::offset(v) >> 20, -1, "{:b}", j::offset(v) >> 20);

    let v: u32 = 0b1_1111111111_1_00000000_000000000000;
    assert_eq!(j::offset(v) & 0xFFFFF, 0b00000000_1_1111111111_0, "0b{:b}", j::offset(v) & 0xFFFFF);
    assert_eq!(j::offset(v) >> 20, -1, "{:b}", j::offset(v) >> 20);
}

/// Decoding a raw word, re-encoding its fields and decoding again yields
/// the same record, over one word of every format.
#[test]
fn decode_encode_roundtrip() {
    let samples: Vec<u32> = vec![
        // addi x1, x0, 7
        0x0070_0093,
        // addi x2, x1, -3
        0xffd0_8113,
        // add x3, x1, x2
        0x0020_81b3,
        // sub x4, x1, x2
        0x4020_8233,
        // beq x1, x2, +8
        0x0020_8463,
        // jal x1, +8
        0x0080_00ef,
        // jalr x0, x1, 0
        0x0000_8067,
        // sb x7, 256(x0)
        0x1070_0023,
        // lb x5, 256(x0)
        0x1000_0283,
        // lbu x6, 256(x0)
        0x1000_4303,
        // lui x1, 0x12345
        0x1234_50b7,
        // auipc x2, 0
        0x0000_0117,
        // ecall
        0x0000_0073,
        // the halt sentinel
        0xfeed_feed,
    ];
    for w in samples {
        let i = decode(w).expect("sample must decode");
        let w2 = encode(i);
        let i2 = decode(w2).expect("re-encoded word must decode");
        assert_eq!(i, i2, "word {:08x} -> {:08x}", w, w2);
    }
}

/// A non-canonical shift-immediate word re-encodes into a different raw
/// word that still decodes to the same record.
#[test]
fn roundtrip_non_canonical_word() {
    // srai x1, x1, 1 with scrambled high funct7 bits: any nonzero funct7
    // selects the arithmetic shift.
    let w: u32 = 0b1111111_00001_00001_101_00001_0010011;
    let i = decode(w).expect("must decode");
    assert!(matches!(i, InstrType::R { var: RInstr::SRAI, .. }));
    let w2 = encode(i);
    assert_ne!(w, w2);
    assert_eq!(decode(w2).unwrap(), i);
}

#[test]
fn decode_rejects_unknown_words() {
    // Opcode zero belongs to no implemented format.
    assert!(decode(0).is_err());
    // A branch with funct3 = 0b010 has no meaning.
    assert!(decode(0b0000000_00000_00000_010_00000_1100011).is_err());
    // A register word with funct7 = 3 has no meaning.
    assert!(decode(0b0000011_00000_00000_000_00000_0110011).is_err());
}

#[test]
fn decode_recognizes_system_words() {
    assert!(matches!(
        decode(0x0000_0073).unwrap(),
        InstrType::I { var: IInstr::ECALL, .. }
    ));
    assert!(matches!(
        decode(0x0010_0073).unwrap(),
        InstrType::I { var: IInstr::EBREAK, .. }
    ));
    // csrrw x0, 0x300, x0
    assert!(matches!(
        decode(0x3000_1073).unwrap(),
        InstrType::I { var: IInstr::CSRRW, .. }
    ));
}

#[test]
fn halt_sentinel_decodes_to_halt() {
    assert_eq!(decode(0xfeed_feed).unwrap(), InstrType::Halt);
    assert_eq!(riscv::instr::InstrType::halt_val(), 0xfeed_feed);
}

#[test]
fn dependency_oracle() {
    let producer = InstrType::I { var: IInstr::ADDI, rs1: 0, rd: 1, sx_imm: 7, zx_imm: 7 };
    let reader = InstrType::R { var: RInstr::ADD, rs1: 1, rs2: 2, rd: 3 };
    let other = InstrType::R { var: RInstr::ADD, rs1: 4, rs2: 5, rd: 6 };
    let store = InstrType::S { var: SInstr::SW, rs1: 1, rs2: 2, imm: 0 };
    let branch = InstrType::B { var: BInstr::BEQ, rs1: 1, rs2: 2, imm: 8 };
    let jump = InstrType::J { var: JInstr::JAL, rd: 0, offset: 8 };
    let jalr = InstrType::I { var: IInstr::JALR, rs1: 3, rd: 0, sx_imm: 0, zx_imm: 0 };
    let lui = InstrType::U { var: UInstr::LUI, rd: 1, imm: 0x1000 };
    let auipc = InstrType::U { var: UInstr::AUIPC, rd: 2, imm: 0 };

    // A reader depends on the producer of one of its sources, and on a halt.
    assert!(reader.depends_on(&producer));
    assert!(!other.depends_on(&producer));
    assert!(reader.depends_on(&InstrType::Halt));
    // Stores and branches produce no register, so they carry no hazard.
    assert!(!reader.depends_on(&store));
    assert!(!reader.depends_on(&branch));
    // A halt fences everything.
    assert!(InstrType::Halt.depends_on(&other));
    // Jumps and plain upper immediates depend on nothing.
    assert!(!jump.depends_on(&producer));
    assert!(!lui.depends_on(&producer));
    // The counter-relative upper immediate depends on prior control flow.
    assert!(auipc.depends_on(&branch));
    assert!(auipc.depends_on(&jump));
    assert!(!auipc.depends_on(&producer));
    // An indirect jump depends on control flow and its source's producer.
    assert!(jalr.depends_on(&branch));
    let jalr_src_producer = InstrType::R { var: RInstr::ADD, rs1: 1, rs2: 2, rd: 3 };
    assert!(jalr.depends_on(&jalr_src_producer));
    assert!(!jalr.depends_on(&store));
}
