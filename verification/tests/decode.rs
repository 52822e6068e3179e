use pemios_core::hart::instruction::decode::decode_with;
use pemios_core::hart::instruction::decode::Decode;
use pemios_core::hart::instruction::decode::Decoder;
use pemios_core::hart::instruction::instruction_type::InstructionKind;
use pemios_core::hart::instruction::types::Csr;
use pemios_core::hart::instruction::types::FenceMode;
use pemios_core::hart::instruction::types::FenceSet;
use pemios_core::hart::instruction::types::Int12;
use pemios_core::hart::instruction::types::Int13Trunc1;
use pemios_core::hart::instruction::types::Int21Trunc1;
use pemios_core::hart::instruction::types::Int32Trunc12;
use pemios_core::hart::instruction::types::OpCode;
use pemios_core::hart::instruction::types::UInt5;
use pemios_core::hart::instruction::Extensions;
use pemios_core::hart::instruction::Instruction;
use pemios_core::hart::register::Reg;

#[test]
fn decodes_known_words() {
    // addi x1, x0, 5
    assert_eq!(0x0050_0093u32.decode(), Instruction::Addi { rd: Reg::X1, rs1: Reg::X0, imm: Int12::new(5) });
    // addi x0, x0, 0: the destination is written as Ignore
    assert_eq!(0x0000_0013u32.decode(), Instruction::Addi { rd: Reg::Ignore, rs1: Reg::X0, imm: Int12::new(0) });
    // add x3, x1, x2
    assert_eq!(0x0020_81b3u32.decode(), Instruction::Add { rd: Reg::X3, rs1: Reg::X1, rs2: Reg::X2 });
    // sub x3, x1, x2
    assert_eq!(0x4020_81b3u32.decode(), Instruction::Sub { rd: Reg::X3, rs1: Reg::X1, rs2: Reg::X2 });
    // sra x5, x6, x7
    assert_eq!(0x4073_52b3u32.decode(), Instruction::Sra { rd: Reg::X5, rs1: Reg::X6, rs2: Reg::X7 });
    // srl x5, x6, x7
    assert_eq!(0x0073_52b3u32.decode(), Instruction::Srl { rd: Reg::X5, rs1: Reg::X6, rs2: Reg::X7 });
    // beq x1, x0, +8
    assert_eq!(0x0000_8463u32.decode(), Instruction::Beq { rs1: Reg::X1, rs2: Reg::X0, imm: Int13Trunc1::new(8) });
    // bne x1, x2, -4
    assert_eq!(0xfe20_9ee3u32.decode(), Instruction::Bne { rs1: Reg::X1, rs2: Reg::X2, imm: Int13Trunc1::new(-4) });
    // jal x1, +8
    assert_eq!(0x0080_00efu32.decode(), Instruction::Jal { rd: Reg::X1, imm: Int21Trunc1::new(8) });
    // jal x0, -16
    assert_eq!(0xff1f_f06fu32.decode(), Instruction::Jal { rd: Reg::Ignore, imm: Int21Trunc1::new(-16) });
    // jalr x1, 4(x2)
    assert_eq!(0x0041_00e7u32.decode(), Instruction::Jalr { rd: Reg::X1, rs1: Reg::X2, imm: Int12::new(4) });
    // lui x5, 0xdeadc
    assert_eq!(
        0xdead_c2b7u32.decode(),
        Instruction::Lui { rd: Reg::X5, imm: Int32Trunc12::new(0xdead_c000u32 as i32) }
    );
    // auipc x5, 1
    assert_eq!(0x0000_1297u32.decode(), Instruction::Auipc { rd: Reg::X5, imm: Int32Trunc12::new(0x1000) });
    // lw x3, 0(x2)
    assert_eq!(0x0001_2183u32.decode(), Instruction::Lw { rd: Reg::X3, rs1: Reg::X2, imm: Int12::new(0) });
    // lb x3, -1(x2)
    assert_eq!(0xfff1_0183u32.decode(), Instruction::Lb { rd: Reg::X3, rs1: Reg::X2, imm: Int12::new(-1) });
    // sw x1, 0(x2)
    assert_eq!(0x0011_2023u32.decode(), Instruction::Sw { rs1: Reg::X2, rs2: Reg::X1, imm: Int12::new(0) });
    // sh x1, -2(x2)
    assert_eq!(0xfe11_1f23u32.decode(), Instruction::Sh { rs1: Reg::X2, rs2: Reg::X1, imm: Int12::new(-2) });
    // slli x1, x2, 3: the shift amount stands in bits 24:20
    assert_eq!(0x0031_1093u32.decode(), Instruction::Slli { rd: Reg::X1, rs1: Reg::X2, shamt: UInt5::new(3) });
    // srai x1, x2, 31
    assert_eq!(0x41f1_5093u32.decode(), Instruction::Srai { rd: Reg::X1, rs1: Reg::X2, shamt: UInt5::new(31) });
    assert_eq!(0x0000_0073u32.decode(), Instruction::Ecall);
    assert_eq!(0x0010_0073u32.decode(), Instruction::Ebreak);
    // mul x3, x1, x2
    assert_eq!(0x0220_81b3u32.decode(), Instruction::Mul { rd: Reg::X3, rs1: Reg::X1, rs2: Reg::X2 });
    // lr.w x1, (x2)
    assert_eq!(0x1001_20afu32.decode(), Instruction::Lrw { rd: Reg::X1, rs1: Reg::X2, aq: false, rl: false });
    // sc.w.aqrl x3, x1, (x2)
    assert_eq!(
        0x1e11_21afu32.decode(),
        Instruction::Scw { rd: Reg::X3, rs1: Reg::X2, rs2: Reg::X1, aq: true, rl: true }
    );
    // amoadd.w x3, x1, (x2)
    assert_eq!(
        0x0011_21afu32.decode(),
        Instruction::AmoAddw { rd: Reg::X3, rs1: Reg::X2, rs2: Reg::X1, aq: false, rl: false }
    );
    // csrrw x1, 0x300, x2
    assert_eq!(0x3001_10f3u32.decode(), Instruction::CsrRw { rd: Reg::X1, rs1: Reg::X2, csr: Csr::new(0x300) });
    // csrrsi x1, 0x300, 5
    assert_eq!(
        0x3002_e0f3u32.decode(),
        Instruction::CsrRsi { rd: Reg::X1, uimm: UInt5::new(5), csr: Csr::new(0x300) }
    );
    // fence rw, rw
    assert_eq!(
        0x0330_000fu32.decode(),
        Instruction::Fence {
            rd: Reg::Ignore,
            rs1: Reg::X0,
            pred: FenceSet::new(3),
            succ: FenceSet::new(3),
            mode: FenceMode::Normal,
        }
    );
    // fence.tso
    assert_eq!(
        0x8330_000fu32.decode(),
        Instruction::Fence {
            rd: Reg::Ignore,
            rs1: Reg::X0,
            pred: FenceSet::new(3),
            succ: FenceSet::new(3),
            mode: FenceMode::Tso,
        }
    );
    // fence.i
    assert_eq!(
        0x0000_100fu32.decode(),
        Instruction::Fencei { rd: Reg::Ignore, rs1: Reg::Ignore, imm: Int12::new(0) }
    );
}

#[test]
fn words_that_are_no_instructions_are_invalid() {
    for raw in [0u32, 0xffff_ffff, 0x0000_3003, 0x0000_3023, 0x0000_2063, 0x0000_4073, 0x0020_0073, 0x0000_10e7] {
        assert_eq!(raw.decode(), Instruction::Invalid { raw }, "{raw:#x}");
    }
    // an atomic of another width than a word
    assert_eq!(0x1001_30afu32.decode(), Instruction::Invalid { raw: 0x1001_30af });
    // a register operation with a funct7 that names nothing
    assert_eq!(0x0420_81b3u32.decode(), Instruction::Invalid { raw: 0x0420_81b3 });
    // sub-like funct7 on an operation that has none
    assert_eq!(0x4020_91b3u32.decode(), Instruction::Invalid { raw: 0x4020_91b3 });
    // slli with a funct7
    assert_eq!(0x4031_1093u32.decode(), Instruction::Invalid { raw: 0x4031_1093 });
    assert_eq!(Instruction::default(), Instruction::Invalid { raw: 0 });
}

#[test]
fn extensions_gate_the_decoder() {
    let base = Extensions::base();
    let all = Extensions::all();
    let mul = 0x0220_81b3u32;
    let lr = 0x1001_20afu32;
    let csr = 0x3001_10f3u32;
    let fencei = 0x0000_100fu32;
    for raw in [mul, lr, csr, fencei] {
        assert_eq!(decode_with(raw, base), Instruction::Invalid { raw });
        assert_ne!(decode_with(raw, all), Instruction::Invalid { raw });
    }
    let only_m = Extensions { m: true, ..base };
    assert_eq!(decode_with(mul, only_m), Instruction::Mul { rd: Reg::X3, rs1: Reg::X1, rs2: Reg::X2 });
    assert_eq!(decode_with(lr, only_m), Instruction::Invalid { raw: lr });
    // ecall and the base instructions do not depend on extensions
    assert_eq!(decode_with(0x73, base), Instruction::Ecall);
    assert_eq!(decode_with(0x0050_0093, base), 0x0050_0093u32.decode());
}

#[test]
fn decoder_reads_the_fields() {
    let d = Decoder::new(0xabcd_e2b7);
    assert_eq!(d.opcode(), OpCode::Lui);
    assert_eq!(d.rd(), Reg::X5);
    assert_eq!(d.funct3(), 0b110);
    assert_eq!(d.funct7(), 0b1010101);
    assert_eq!(d.funct5(), 0b10101);
    assert_eq!(d.funct12(), 0xabc);
    assert_eq!(d.rs1(), Reg::X27);
    assert_eq!(d.rs2(), Reg::X28);
    assert_eq!(d.shamt().value(), 28);
    assert_eq!(d.uimm().value(), 27);
    assert_eq!(d.csr().value(), 0xabc);
    assert_eq!(d.imm_i().value(), 0xabc - 0x1000);
    assert_eq!(d.imm_u().value(), 0xabcd_e000u32 as i32);
    assert_eq!(d.imm_s().value(), (0xaa5 - 0x1000) & !0x1f | 5);
    assert!(!d.aq());
    assert!(d.rl());
    assert_eq!(d.pred().raw(), 0xb);
    assert_eq!(d.succ().raw(), 0xc);
    assert_eq!(d.mode(), FenceMode::Other);
    let b = Decoder::new(0xfe20_9ee3);
    assert_eq!(b.imm_b().value(), -4);
    let j = Decoder::new(0xff1f_f06f);
    assert_eq!(j.imm_j().value(), -16);
    assert_eq!(Decoder::new(0x13).rd(), Reg::Ignore);
}

#[test]
fn templates_carry_the_opcode() {
    assert_eq!(InstructionKind::Add.template(), 0x0000_0033);
    assert_eq!(InstructionKind::Sub.template(), 0x4000_0033);
    assert_eq!(InstructionKind::Sra.template(), 0x4000_5033);
    assert_eq!(InstructionKind::Ebreak.template(), 0x0010_0073);
    assert_eq!(InstructionKind::AmoMaxuw.template(), 0xe000_202f);
    assert_eq!(InstructionKind::Invalid.template(), 0);
    assert_eq!(InstructionKind::Lw.opcode(), OpCode::Load);
    assert_eq!(InstructionKind::Srai.opcode(), OpCode::OpImm);
    assert_eq!(InstructionKind::Mulhu.opcode(), OpCode::Op);
    assert_eq!(InstructionKind::Scw.opcode(), OpCode::Amo);
    assert_eq!(InstructionKind::CsrRci.opcode(), OpCode::System);
    assert_eq!(InstructionKind::Fencei.opcode(), OpCode::MiscMem);
    assert_eq!(InstructionKind::Invalid.opcode(), OpCode::Invalid);
    assert_eq!(OpCode::from_u32(0b1101111), OpCode::Jal);
    assert_eq!(OpCode::from_u32(0b1111111), OpCode::Invalid);
}

#[test]
fn encode_inverts_decode_on_known_instructions() {
    let add = Instruction::Add { rd: Reg::X3, rs1: Reg::X1, rs2: Reg::X2 };
    assert_eq!(add.kind(), InstructionKind::Add);
    assert_eq!(add.encode(), 0x0020_81b3);
    let bne = Instruction::Bne { rs1: Reg::X1, rs2: Reg::X2, imm: Int13Trunc1::new(-4) };
    assert_eq!(bne.encode(), 0xfe20_9ee3);
    let jal = Instruction::Jal { rd: Reg::Ignore, imm: Int21Trunc1::new(-16) };
    assert_eq!(jal.encode(), 0xff1f_f06f);
    let sh = Instruction::Sh { rs1: Reg::X2, rs2: Reg::X1, imm: Int12::new(-2) };
    assert_eq!(sh.encode(), 0xfe11_1f23);
    let sc = Instruction::Scw { rd: Reg::X3, rs1: Reg::X2, rs2: Reg::X1, aq: true, rl: true };
    assert_eq!(sc.encode(), 0x1e11_21af);
    assert_eq!(Instruction::Invalid { raw: 77 }.encode(), 77);
}

#[test]
fn decode_encode_round_trip_on_many_words() {
    let all = Extensions::all();
    let base = Extensions::base();
    let mut state: u64 = 0x9e37_79b9_7f4a_7c15;
    let mut valid = 0u32;
    for _ in 0..1_000_000 {
        state = state.wrapping_mul(6364136223846793005).wrapping_add(1442695040888963407);
        let word = (state >> 32) as u32;
        for ext in [all, base] {
            let inst = decode_with(word, ext);
            if inst != (Instruction::Invalid { raw: word }) {
                valid += 1;
                assert_eq!(decode_with(inst.encode(), ext), inst, "{word:#x}");
            }
        }
    }
    assert!(valid > 10_000);
}

#[test]
fn checked_operands() {
    assert_eq!(UInt5::checked_new(31).map(|v| v.value()), Some(31));
    assert_eq!(UInt5::checked_new(32), None);
    assert_eq!(Int12::checked_new(-2048).map(|v| v.value()), Some(-2048));
    assert_eq!(Int12::checked_new(2048), None);
    assert_eq!(Int12::checked_new(-2049), None);
    assert_eq!(Int32Trunc12::checked_new(i32::MIN).map(|v| v.value()), Some(i32::MIN));
    assert_eq!(Int32Trunc12::checked_new(0x1001), None);
    assert_eq!(Int21Trunc1::checked_new(-0x10_0000).map(|v| v.value()), Some(-0x10_0000));
    assert_eq!(Int21Trunc1::checked_new(0x10_0000), None);
    assert_eq!(Int21Trunc1::checked_new(3), None);
    assert_eq!(Int13Trunc1::checked_new(4094).map(|v| v.value()), Some(4094));
    assert_eq!(Int13Trunc1::checked_new(4096), None);
    assert_eq!(Int13Trunc1::checked_new(-3), None);
    let set = FenceSet::new(0b1010);
    assert!(set.input());
    assert!(!set.output());
    assert!(set.read());
    assert!(!set.write());
    assert_eq!(FenceMode::new(0), FenceMode::Normal);
    assert_eq!(FenceMode::new(8), FenceMode::Tso);
    assert_eq!(FenceMode::new(3), FenceMode::Other);
}

#[test]
fn registers_by_number() {
    for n in 0..32u32 {
        assert_eq!(Reg::from_u32(n).index(), n as usize);
    }
    assert_eq!(Reg::from_u32(2), Reg::SP);
    assert_eq!(Reg::A1, Reg::X11);
    assert_eq!(Reg::FP, Reg::S0);
    assert_eq!(Reg::Ignore.index(), 0);
}
