use pemios_core::bus::Bus;
use pemios_core::hart::alu::alu;
use pemios_core::hart::alu::AluOp;
use pemios_core::hart::instruction::instruction_type::InstructionKind;
use pemios_core::hart::instruction::operation::Operation;
use pemios_core::hart::instruction::types::Conclusion;
use pemios_core::hart::instruction::types::Csr;
use pemios_core::hart::instruction::types::Int12;
use pemios_core::hart::instruction::types::Int13Trunc1;
use pemios_core::hart::instruction::types::Int21Trunc1;
use pemios_core::hart::instruction::types::Int32Trunc12;
use pemios_core::hart::instruction::types::UInt5;
use pemios_core::hart::instruction::Extensions;
use pemios_core::hart::instruction::Instruction;
use pemios_core::hart::register::Reg;
use pemios_core::hart::register::RegisterFile;
use pemios_core::hart::rv32i::Rv32i;
use pemios_core::hart::rv32m::Rv32m;
use pemios_core::hart::step::Step;
use pemios_core::hart::step::BREAKPOINT;
use pemios_core::hart::step::ENVIRONMENT_CALL;
use pemios_core::hart::step::ILLEGAL_INSTRUCTION;
use pemios_core::hart::step::INSTRUCTION_ACCESS_FAULT;
use pemios_core::hart::step::INSTRUCTION_ADDRESS_MISALIGNED;
use pemios_core::hart::step::LOAD_ACCESS_FAULT;
use pemios_core::hart::step::LOAD_ADDRESS_MISALIGNED;
use pemios_core::hart::step::STORE_ACCESS_FAULT;
use pemios_core::hart::step::STORE_ADDRESS_MISALIGNED;
use pemios_core::hart::zicsr::Zicsr;
use pemios_core::hart::Hart;
use pemios_core::memory::main::Main;
use pemios_core::memory::mapping::AmoClass;
use pemios_core::memory::mapping::Mapping;
use pemios_core::memory::mapping::Pma;
use pemios_core::memory::reservation::Reservations;
use pemios_core::memory::reservation::NO_RESERVATION;

fn addi(rd: Reg, rs1: Reg, imm: i32) -> Instruction {
    Instruction::Addi { rd, rs1, imm: Int12::new(imm) }
}

fn assemble(program: &[Instruction]) -> Vec<u8> {
    let mut bytes = Vec::new();
    for inst in program {
        bytes.extend_from_slice(&inst.encode().to_le_bytes());
    }
    bytes
}

fn machine(program: &[Instruction]) -> (Hart, Bus, Reservations) {
    let mut cells = Reservations::new();
    let cell = cells.add_cell();
    let mut bus = Bus::builder().with_main_memory(2).build();
    bus.register_reservation_set(cell);
    assert_eq!(bus.set_mm(&assemble(program), &mut cells), Ok(program.len() * 4));
    (Hart::new(cell), bus, cells)
}

fn run(hart: &mut Hart, bus: &mut Bus, cells: &mut Reservations) -> u8 {
    for _ in 0..10_000 {
        if let Conclusion::Exception(code) = hart.step(bus, cells) {
            return code;
        }
    }
    panic!("the program did not end");
}

#[test]
fn add() {
    let program = [addi(Reg::X1, Reg::X0, 5), addi(Reg::X2, Reg::X0, 7), Instruction::Add {
        rd: Reg::X3,
        rs1: Reg::X1,
        rs2: Reg::X2,
    }, Instruction::Ecall];
    let (mut hart, mut bus, mut cells) = machine(&program);
    assert_eq!(hart.step(&mut bus, &mut cells), Conclusion::Proceed);
    assert_eq!(hart.pc, 4);
    assert_eq!(run(&mut hart, &mut bus, &mut cells), ENVIRONMENT_CALL);
    assert_eq!(hart.reg.get(Reg::X3), 12);
    assert_eq!(hart.reg.get(Reg::X1), 5);
    assert_eq!(hart.reg.get(Reg::X2), 7);
    assert_eq!(hart.pc, 12);
}

#[test]
fn branch_not_taken_falls_through() {
    let program = [
        addi(Reg::X1, Reg::X0, 1),
        Instruction::Beq { rs1: Reg::X1, rs2: Reg::X0, imm: Int13Trunc1::new(8) },
        addi(Reg::X2, Reg::X0, 99),
        Instruction::Ecall,
        addi(Reg::X2, Reg::X0, 42),
        Instruction::Ecall,
    ];
    let (mut hart, mut bus, mut cells) = machine(&program);
    assert_eq!(run(&mut hart, &mut bus, &mut cells), ENVIRONMENT_CALL);
    assert_eq!(hart.reg.get(Reg::X2), 99);
    assert_eq!(hart.pc, 12);
}

#[test]
fn branch_taken_jumps() {
    let program = [
        addi(Reg::X1, Reg::X0, 1),
        Instruction::Bne { rs1: Reg::X1, rs2: Reg::X0, imm: Int13Trunc1::new(12) },
        addi(Reg::X2, Reg::X0, 99),
        Instruction::Ecall,
        addi(Reg::X2, Reg::X0, 42),
        Instruction::Ecall,
    ];
    let (mut hart, mut bus, mut cells) = machine(&program);
    assert_eq!(hart.step(&mut bus, &mut cells), Conclusion::Proceed);
    assert_eq!(hart.step(&mut bus, &mut cells), Conclusion::Jumped);
    assert_eq!(hart.pc, 16);
    assert_eq!(run(&mut hart, &mut bus, &mut cells), ENVIRONMENT_CALL);
    assert_eq!(hart.reg.get(Reg::X2), 42);
    assert_eq!(hart.pc, 20);
}

#[test]
fn jal_links() {
    let program = [Instruction::Jal { rd: Reg::X1, imm: Int21Trunc1::new(8) }, Instruction::Ecall, Instruction::Ecall];
    let (mut hart, mut bus, mut cells) = machine(&program);
    assert_eq!(hart.step(&mut bus, &mut cells), Conclusion::Jumped);
    assert_eq!(hart.reg.get(Reg::X1), 4);
    assert_eq!(hart.pc, 8);
    assert_eq!(hart.step(&mut bus, &mut cells), Conclusion::Exception(ENVIRONMENT_CALL));
    assert_eq!(hart.pc, 8);
}

#[test]
fn jalr_clears_the_lowest_bit_and_links() {
    let program = [
        addi(Reg::X5, Reg::X0, 13),
        Instruction::Jalr { rd: Reg::X1, rs1: Reg::X5, imm: Int12::new(0) },
        Instruction::Ebreak,
        Instruction::Ecall,
    ];
    let (mut hart, mut bus, mut cells) = machine(&program);
    assert_eq!(hart.step(&mut bus, &mut cells), Conclusion::Proceed);
    assert_eq!(hart.step(&mut bus, &mut cells), Conclusion::Jumped);
    assert_eq!(hart.pc, 12);
    assert_eq!(hart.reg.get(Reg::X1), 8);
    assert_eq!(run(&mut hart, &mut bus, &mut cells), ENVIRONMENT_CALL);
}

#[test]
fn misaligned_targets_raise_an_exception() {
    let program = [
        Instruction::Jal { rd: Reg::X1, imm: Int21Trunc1::new(6) },
        Instruction::Beq { rs1: Reg::X0, rs2: Reg::X0, imm: Int13Trunc1::new(2) },
        addi(Reg::X5, Reg::X0, 2),
        Instruction::Jalr { rd: Reg::X1, rs1: Reg::X5, imm: Int12::new(0) },
    ];
    let (mut hart, mut bus, mut cells) = machine(&program);
    assert_eq!(hart.step(&mut bus, &mut cells), Conclusion::Exception(INSTRUCTION_ADDRESS_MISALIGNED));
    assert_eq!(hart.pc, 0);
    assert_eq!(hart.reg.get(Reg::X1), 0);
    hart.pc = 4;
    assert_eq!(hart.step(&mut bus, &mut cells), Conclusion::Exception(INSTRUCTION_ADDRESS_MISALIGNED));
    assert_eq!(hart.pc, 4);
    hart.pc = 8;
    assert_eq!(hart.step(&mut bus, &mut cells), Conclusion::Proceed);
    assert_eq!(hart.step(&mut bus, &mut cells), Conclusion::Exception(INSTRUCTION_ADDRESS_MISALIGNED));
    assert_eq!(hart.pc, 12);
    assert_eq!(hart.reg.get(Reg::X1), 0);
    hart.pc = 2;
    assert_eq!(hart.step(&mut bus, &mut cells), Conclusion::Exception(INSTRUCTION_ADDRESS_MISALIGNED));
    hart.pc = 0x4000;
    assert_eq!(hart.step(&mut bus, &mut cells), Conclusion::Exception(INSTRUCTION_ACCESS_FAULT));
    assert_eq!(hart.pc, 0x4000);
}

#[test]
fn load_store_round_trip() {
    let program = [
        Instruction::Lui { rd: Reg::X1, imm: Int32Trunc12::new(0xdead_c000u32 as i32) },
        addi(Reg::X1, Reg::X1, -0x111),
        addi(Reg::X2, Reg::X0, 0x100),
        Instruction::Sw { rs1: Reg::X2, rs2: Reg::X1, imm: Int12::new(0) },
        Instruction::Lw { rd: Reg::X3, rs1: Reg::X2, imm: Int12::new(0) },
        Instruction::Lb { rd: Reg::X4, rs1: Reg::X2, imm: Int12::new(0) },
        Instruction::Lbu { rd: Reg::X5, rs1: Reg::X2, imm: Int12::new(1) },
        Instruction::Lh { rd: Reg::X6, rs1: Reg::X2, imm: Int12::new(2) },
        Instruction::Lhu { rd: Reg::X7, rs1: Reg::X2, imm: Int12::new(2) },
        Instruction::Sb { rs1: Reg::X2, rs2: Reg::X0, imm: Int12::new(3) },
        Instruction::Sh { rs1: Reg::X2, rs2: Reg::X2, imm: Int12::new(0) },
        Instruction::Lw { rd: Reg::X8, rs1: Reg::X2, imm: Int12::new(0) },
        Instruction::Ecall,
    ];
    let (mut hart, mut bus, mut cells) = machine(&program);
    assert_eq!(run(&mut hart, &mut bus, &mut cells), ENVIRONMENT_CALL);
    assert_eq!(hart.reg.get(Reg::X1), 0xdead_beef);
    assert_eq!(hart.reg.get(Reg::X3), 0xdead_beef);
    assert_eq!(hart.reg.get(Reg::X4), 0xffff_ffef);
    assert_eq!(hart.reg.get(Reg::X5), 0xbe);
    assert_eq!(hart.reg.get(Reg::X6), 0xffff_dead);
    assert_eq!(hart.reg.get(Reg::X7), 0xdead);
    assert_eq!(hart.reg.get(Reg::X8), 0x00ad_0100);
    // the stores stay in the cache of the hart until their line leaves it
    assert_eq!(bus.load_word(0x100), Ok(0));
}

#[test]
fn memory_faults_raise_exceptions() {
    let program = [
        addi(Reg::X2, Reg::X0, 0x101),
        Instruction::Lw { rd: Reg::X3, rs1: Reg::X2, imm: Int12::new(0) },
        Instruction::Sh { rs1: Reg::X2, rs2: Reg::X2, imm: Int12::new(0) },
        Instruction::Lui { rd: Reg::X4, imm: Int32Trunc12::new(0x10_0000) },
        Instruction::Lw { rd: Reg::X3, rs1: Reg::X4, imm: Int12::new(0) },
        Instruction::Sw { rs1: Reg::X4, rs2: Reg::X2, imm: Int12::new(0) },
        Instruction::Lui { rd: Reg::X5, imm: Int32Trunc12::new(0x8000_0000u32 as i32) },
        Instruction::Lw { rd: Reg::X3, rs1: Reg::X5, imm: Int12::new(0) },
        Instruction::Sb { rs1: Reg::X5, rs2: Reg::X2, imm: Int12::new(0) },
        Instruction::Invalid { raw: 0 },
        Instruction::CsrRw { rd: Reg::X1, rs1: Reg::X2, csr: Csr::new(0x300) },
        Instruction::Ebreak,
    ];
    let (mut hart, mut bus, mut cells) = machine(&program);
    let expected = [
        Conclusion::Proceed,
        Conclusion::Exception(LOAD_ADDRESS_MISALIGNED),
        Conclusion::Exception(STORE_ADDRESS_MISALIGNED),
        Conclusion::Proceed,
        Conclusion::Exception(LOAD_ACCESS_FAULT),
        Conclusion::Exception(STORE_ACCESS_FAULT),
        Conclusion::Proceed,
        Conclusion::Exception(LOAD_ACCESS_FAULT),
        Conclusion::Exception(STORE_ACCESS_FAULT),
        Conclusion::Exception(ILLEGAL_INSTRUCTION),
        Conclusion::Exception(ILLEGAL_INSTRUCTION),
        Conclusion::Exception(BREAKPOINT),
    ];
    for (i, want) in expected.iter().enumerate() {
        hart.pc = 4 * i as u32;
        assert_eq!(hart.step(&mut bus, &mut cells), *want, "instruction {i}");
        if let Conclusion::Exception(_) = want {
            assert_eq!(hart.pc, 4 * i as u32);
        }
    }
    assert_eq!(hart.reg.get(Reg::X3), 0);
}

#[test]
fn lr_sc_success() {
    let program = [
        Instruction::Lrw { rd: Reg::X1, rs1: Reg::X2, aq: false, rl: false },
        addi(Reg::X1, Reg::X1, 1),
        Instruction::Scw { rd: Reg::X3, rs1: Reg::X2, rs2: Reg::X1, aq: false, rl: false },
        Instruction::Ecall,
    ];
    let (mut hart, mut bus, mut cells) = machine(&program);
    assert_eq!(bus.store_word(0x200, 10, &mut cells), Ok(()));
    hart.reg.set(Reg::X2, 0x200);
    hart.reg.set(Reg::X3, 77);
    assert_eq!(hart.step(&mut bus, &mut cells), Conclusion::Proceed);
    assert_eq!(cells.load(hart.reservation()), 0x200 >> 6);
    assert_eq!(run(&mut hart, &mut bus, &mut cells), ENVIRONMENT_CALL);
    assert_eq!(bus.load_word(0x200), Ok(11));
    assert_eq!(hart.reg.get(Reg::X3), 0);
    assert_eq!(hart.reg.get(Reg::X1), 11);
    assert_eq!(cells.load(hart.reservation()), NO_RESERVATION);
}

#[test]
fn sc_without_lr_fails_and_touches_nothing() {
    let program = [
        Instruction::Scw { rd: Reg::X3, rs1: Reg::X2, rs2: Reg::X1, aq: false, rl: false },
        Instruction::Lrw { rd: Reg::X1, rs1: Reg::X2, aq: false, rl: false },
        Instruction::Scw { rd: Reg::X3, rs1: Reg::X4, rs2: Reg::X1, aq: false, rl: false },
        Instruction::Ecall,
    ];
    let (mut hart, mut bus, mut cells) = machine(&program);
    assert_eq!(bus.store_word(0x200, 10, &mut cells), Ok(()));
    hart.reg.set(Reg::X1, 5);
    hart.reg.set(Reg::X2, 0x200);
    hart.reg.set(Reg::X4, 0x240);
    assert_eq!(hart.step(&mut bus, &mut cells), Conclusion::Proceed);
    assert_eq!(hart.reg.get(Reg::X3), 1);
    assert_eq!(bus.load_word(0x200), Ok(10));
    // a store-conditional into another set than the reserved one fails
    assert_eq!(run(&mut hart, &mut bus, &mut cells), ENVIRONMENT_CALL);
    assert_eq!(hart.reg.get(Reg::X3), 1);
    assert_eq!(bus.load_word(0x240), Ok(0));
    assert_eq!(cells.load(hart.reservation()), 0x200 >> 6);
}

#[test]
fn sc_fails_after_a_store_of_another_hart() {
    let program_a = [
        Instruction::Lrw { rd: Reg::X1, rs1: Reg::X2, aq: false, rl: false },
        addi(Reg::X1, Reg::X1, 1),
        Instruction::Scw { rd: Reg::X3, rs1: Reg::X2, rs2: Reg::X1, aq: false, rl: false },
        Instruction::Ecall,
    ];
    // hart B stores to the set and then reads two more lines of the same
    // set of its cache, so that the line with the store is written back
    let program_b = [
        Instruction::Sw { rs1: Reg::X2, rs2: Reg::X5, imm: Int12::new(4) },
        Instruction::Lw { rd: Reg::X6, rs1: Reg::X2, imm: Int12::new(0x100) },
        Instruction::Lw { rd: Reg::X6, rs1: Reg::X2, imm: Int12::new(0x200) },
        Instruction::Ecall,
    ];
    let mut cells = Reservations::new();
    let cell_a = cells.add_cell();
    let cell_b = cells.add_cell();
    let mut bus = Bus::builder().with_main_memory(2).build();
    bus.register_reservation_set(cell_a);
    bus.register_reservation_set(cell_b);
    assert_eq!(bus.block_write(0, &assemble(&program_a), &mut cells), Ok(16));
    assert_eq!(bus.block_write(0x40, &assemble(&program_b), &mut cells), Ok(16));
    assert_eq!(bus.store_word(0x800, 10, &mut cells), Ok(()));
    let mut a = Hart::new(cell_a);
    let mut b = Hart::new(cell_b);
    a.reg.set(Reg::X2, 0x800);
    b.reg.set(Reg::X2, 0x800);
    b.reg.set(Reg::X5, 55);
    b.pc = 0x40;
    assert_eq!(a.step(&mut bus, &mut cells), Conclusion::Proceed);
    assert_eq!(a.reg.get(Reg::X1), 10);
    assert_eq!(cells.load(cell_a), 0x800 >> 6);
    assert_eq!(run(&mut b, &mut bus, &mut cells), ENVIRONMENT_CALL);
    assert_eq!(bus.load_word(0x804), Ok(55));
    assert_eq!(cells.load(cell_a), NO_RESERVATION);
    assert_eq!(run(&mut a, &mut bus, &mut cells), ENVIRONMENT_CALL);
    assert_eq!(a.reg.get(Reg::X3), 1);
    assert_eq!(bus.load_word(0x800), Ok(10));
    assert_eq!(bus.load_word(0x804), Ok(55));
}

#[test]
fn two_harts_count_with_lr_and_sc() {
    // loop: lr.w x1, (x2); addi x1, x1, 1; sc.w x3, x1, (x2); bne x3, x0, loop; addi x4, x4, -1; bne x4, x0, loop; ecall
    let program = [
        Instruction::Lrw { rd: Reg::X1, rs1: Reg::X2, aq: false, rl: false },
        addi(Reg::X1, Reg::X1, 1),
        Instruction::Scw { rd: Reg::X3, rs1: Reg::X2, rs2: Reg::X1, aq: false, rl: false },
        Instruction::Bne { rs1: Reg::X3, rs2: Reg::X0, imm: Int13Trunc1::new(-12) },
        addi(Reg::X4, Reg::X4, -1),
        Instruction::Bne { rs1: Reg::X4, rs2: Reg::X0, imm: Int13Trunc1::new(-20) },
        Instruction::Ecall,
    ];
    let mut cells = Reservations::new();
    let cell_a = cells.add_cell();
    let cell_b = cells.add_cell();
    let mut bus = Bus::builder().with_main_memory(1).build();
    bus.register_reservation_set(cell_a);
    bus.register_reservation_set(cell_b);
    assert_eq!(bus.set_mm(&assemble(&program), &mut cells), Ok(28));
    let mut a = Hart::new(cell_a);
    let mut b = Hart::new(cell_b);
    for hart in [&mut a, &mut b] {
        hart.reg.set(Reg::X2, 0x400);
        hart.reg.set(Reg::X4, 50);
    }
    let mut done_a = false;
    let mut done_b = false;
    let mut state: u32 = 12345;
    let mut seen = 0;
    for _ in 0..100_000 {
        state = state.wrapping_mul(1664525).wrapping_add(1013904223);
        let pick_a = (state >> 16) & 1 == 0;
        if pick_a && !done_a {
            done_a = matches!(a.step(&mut bus, &mut cells), Conclusion::Exception(_));
        } else if !done_b {
            done_b = matches!(b.step(&mut bus, &mut cells), Conclusion::Exception(_));
        } else if !done_a {
            done_a = matches!(a.step(&mut bus, &mut cells), Conclusion::Exception(_));
        } else {
            break;
        }
        let now = bus.load_word(0x400).unwrap();
        assert!(now == seen || now == seen + 1);
        seen = now;
    }
    assert!(done_a && done_b);
    assert_eq!(bus.load_word(0x400), Ok(100));
}

#[test]
fn cache_writes_back_what_was_stored() {
    // store to 48 words of which each third shares a set, then read lines until all were driven out
    let mut program = Vec::new();
    for i in 0..16 {
        program.push(addi(Reg::X1, Reg::X0, 100 + i));
        program.push(Instruction::Sw { rs1: Reg::X2, rs2: Reg::X1, imm: Int12::new(0x40 * i) });
        program.push(Instruction::Sb { rs1: Reg::X2, rs2: Reg::X1, imm: Int12::new(0x40 * i + 9) });
    }
    for i in 0..8 {
        program.push(Instruction::Lw { rd: Reg::X3, rs1: Reg::X4, imm: Int12::new(0x40 * i) });
    }
    program.push(Instruction::Ecall);
    let (mut hart, mut bus, mut cells) = machine(&program);
    hart.reg.set(Reg::X2, 0x1000);
    hart.reg.set(Reg::X4, 0x1800);
    let filler = [0x5au8; 0x400];
    assert_eq!(bus.block_write(0x1000, &filler[..], &mut cells), Ok(0x400));
    assert_eq!(run(&mut hart, &mut bus, &mut cells), ENVIRONMENT_CALL);
    for i in 0..16u32 {
        assert_eq!(bus.load_word(0x1000 + 0x40 * i), Ok(100 + i), "line {i}");
        assert_eq!(bus.load_word(0x1000 + 0x40 * i + 4), Ok(0x5a5a_5a5a));
        assert_eq!(bus.load_word(0x1000 + 0x40 * i + 8), Ok(0x5a5a_005a | ((100 + i) << 8)));
    }
}

#[test]
fn fence_i_fetches_anew() {
    let program = [
        Instruction::Sw { rs1: Reg::X0, rs2: Reg::X5, imm: Int12::new(8) },
        Instruction::Fencei { rd: Reg::Ignore, rs1: Reg::Ignore, imm: Int12::new(0) },
        addi(Reg::X1, Reg::X0, 1),
        Instruction::Ecall,
    ];
    let (mut hart, mut bus, mut cells) = machine(&program);
    hart.reg.set(Reg::X5, addi(Reg::X1, Reg::X0, 2).encode());
    assert_eq!(hart.step(&mut bus, &mut cells), Conclusion::Proceed);
    // the new instruction reaches memory when its line leaves the data cache
    let mut other = Hart::new(hart.reservation());
    assert_eq!(bus.block_write(8, &addi(Reg::X1, Reg::X0, 2).encode().to_le_bytes(), &mut cells), Ok(4));
    assert_eq!(hart.step(&mut bus, &mut cells), Conclusion::Proceed);
    assert_eq!(run(&mut hart, &mut bus, &mut cells), ENVIRONMENT_CALL);
    assert_eq!(hart.reg.get(Reg::X1), 2);
    assert_eq!(run(&mut other, &mut bus, &mut cells), ENVIRONMENT_CALL);
}

#[test]
fn instruction_cache_keeps_what_it_fetched() {
    let program = [addi(Reg::X1, Reg::X1, 1), Instruction::Ecall];
    let (mut hart, mut bus, mut cells) = machine(&program);
    assert_eq!(hart.step(&mut bus, &mut cells), Conclusion::Proceed);
    // memory changes, the cached line does not
    assert_eq!(bus.store_word(0, Instruction::Ebreak.encode(), &mut cells), Ok(()));
    hart.pc = 0;
    assert_eq!(hart.step(&mut bus, &mut cells), Conclusion::Proceed);
    assert_eq!(hart.reg.get(Reg::X1), 2);
    assert_eq!(hart.execute(Instruction::Fencei { rd: Reg::Ignore, rs1: Reg::Ignore, imm: Int12::new(0) }, &mut bus, &mut cells), Conclusion::Proceed);
    hart.pc = 0;
    assert_eq!(hart.step(&mut bus, &mut cells), Conclusion::Exception(BREAKPOINT));
}

#[test]
fn mul() {
    let (mut h, mut bus, mut cells) = machine(&[]);
    h.reg.set(Reg::X1, 4);
    h.reg.set(Reg::X2, 4);
    let op = Instruction::Mul { rd: Reg::X1, rs1: Reg::X1, rs2: Reg::X2 };
    assert_eq!(h.execute(op, &mut bus, &mut cells), Conclusion::Proceed);
    assert_eq!(h.reg.get(Reg::X1), 16);
}

#[test]
fn arithmetic() {
    let min = 0x8000_0000u32;
    let m1 = 0xffff_ffffu32;
    assert_eq!(alu(AluOp::Add, m1, 2), 1);
    assert_eq!(alu(AluOp::Sub, 1, 2), m1);
    assert_eq!(alu(AluOp::Sll, 1, 33), 2);
    assert_eq!(alu(AluOp::Srl, min, 31), 1);
    assert_eq!(alu(AluOp::Sra, min, 31), m1);
    assert_eq!(alu(AluOp::Sra, min, 63), m1);
    assert_eq!(alu(AluOp::Slt, m1, 0), 1);
    assert_eq!(alu(AluOp::Slt, 0, m1), 0);
    assert_eq!(alu(AluOp::Sltu, m1, 0), 0);
    assert_eq!(alu(AluOp::Sltu, 0, m1), 1);
    assert_eq!(alu(AluOp::Xor, 0b1100, 0b1010), 0b0110);
    assert_eq!(alu(AluOp::Or, 0b1100, 0b1010), 0b1110);
    assert_eq!(alu(AluOp::And, 0b1100, 0b1010), 0b1000);
    assert_eq!(alu(AluOp::Mul, 0x1_0001, 0x1_0001), 0x0002_0001);
    assert_eq!(alu(AluOp::Mulh, m1, m1), 0);
    assert_eq!(alu(AluOp::Mulh, min, min), 0x4000_0000);
    assert_eq!(alu(AluOp::Mulh, m1, 2), m1);
    assert_eq!(alu(AluOp::Mulhsu, m1, m1), m1);
    assert_eq!(alu(AluOp::Mulhsu, 2, m1), 1);
    assert_eq!(alu(AluOp::Mulhu, m1, m1), 0xffff_fffe);
    assert_eq!(alu(AluOp::Div, 7, 2), 3);
    assert_eq!(alu(AluOp::Div, (-7i32) as u32, 2), (-3i32) as u32);
    assert_eq!(alu(AluOp::Div, 7, (-2i32) as u32), (-3i32) as u32);
    assert_eq!(alu(AluOp::Div, (-7i32) as u32, (-2i32) as u32), 3);
    assert_eq!(alu(AluOp::Div, 7, 0), m1);
    assert_eq!(alu(AluOp::Div, min, m1), min);
    assert_eq!(alu(AluOp::Divu, 7, 0), m1);
    assert_eq!(alu(AluOp::Divu, m1, 2), 0x7fff_ffff);
    assert_eq!(alu(AluOp::Rem, 7, 2), 1);
    assert_eq!(alu(AluOp::Rem, (-7i32) as u32, 2), (-1i32) as u32);
    assert_eq!(alu(AluOp::Rem, 7, (-2i32) as u32), 1);
    assert_eq!(alu(AluOp::Rem, 7, 0), 7);
    assert_eq!(alu(AluOp::Rem, min, m1), 0);
    assert_eq!(alu(AluOp::Remu, 7, 0), 7);
    assert_eq!(alu(AluOp::Remu, m1, 16), 15);
}

#[test]
fn immediates_and_shifts() {
    let program = [
        addi(Reg::X1, Reg::X0, -1),
        Instruction::Slti { rd: Reg::X2, rs1: Reg::X1, imm: Int12::new(0) },
        Instruction::Sltiu { rd: Reg::X3, rs1: Reg::X0, imm: Int12::new(-1) },
        Instruction::Xori { rd: Reg::X4, rs1: Reg::X1, imm: Int12::new(0x0f0) },
        Instruction::Ori { rd: Reg::X5, rs1: Reg::X0, imm: Int12::new(-2048) },
        Instruction::Andi { rd: Reg::X6, rs1: Reg::X1, imm: Int12::new(0x7ff) },
        Instruction::Slli { rd: Reg::X7, rs1: Reg::X1, shamt: UInt5::new(31) },
        Instruction::Srli { rd: Reg::X8, rs1: Reg::X1, shamt: UInt5::new(28) },
        Instruction::Srai { rd: Reg::X9, rs1: Reg::X7, shamt: UInt5::new(30) },
        Instruction::Auipc { rd: Reg::X10, imm: Int32Trunc12::new(0x2000) },
        addi(Reg::X0, Reg::X1, 5),
        addi(Reg::Ignore, Reg::X1, 5),
        Instruction::Fence {
            rd: Reg::Ignore,
            rs1: Reg::X0,
            pred: pemios_core::hart::instruction::types::FenceSet::new(3),
            succ: pemios_core::hart::instruction::types::FenceSet::new(3),
            mode: pemios_core::hart::instruction::types::FenceMode::Normal,
        },
        Instruction::Ecall,
    ];
    let (mut hart, mut bus, mut cells) = machine(&program);
    assert_eq!(run(&mut hart, &mut bus, &mut cells), ENVIRONMENT_CALL);
    assert_eq!(hart.reg.get(Reg::X1), 0xffff_ffff);
    assert_eq!(hart.reg.get(Reg::X2), 1);
    assert_eq!(hart.reg.get(Reg::X3), 1);
    assert_eq!(hart.reg.get(Reg::X4), 0xffff_ff0f);
    assert_eq!(hart.reg.get(Reg::X5), 0xffff_f800);
    assert_eq!(hart.reg.get(Reg::X6), 0x7ff);
    assert_eq!(hart.reg.get(Reg::X7), 0x8000_0000);
    assert_eq!(hart.reg.get(Reg::X8), 0xf);
    assert_eq!(hart.reg.get(Reg::X9), 0xffff_fffe);
    assert_eq!(hart.reg.get(Reg::X10), 0x2000 + 36);
    assert_eq!(hart.reg.get(Reg::X0), 0);
    assert_eq!(hart.reg.get(Reg::Ignore), 0);
}

#[test]
fn branches_compare_signed_and_unsigned() {
    let cases = [
        (Instruction::Blt { rs1: Reg::X1, rs2: Reg::X2, imm: Int13Trunc1::new(8) }, true),
        (Instruction::Bge { rs1: Reg::X1, rs2: Reg::X2, imm: Int13Trunc1::new(8) }, false),
        (Instruction::Bltu { rs1: Reg::X1, rs2: Reg::X2, imm: Int13Trunc1::new(8) }, false),
        (Instruction::Bgeu { rs1: Reg::X1, rs2: Reg::X2, imm: Int13Trunc1::new(8) }, true),
        (Instruction::Beq { rs1: Reg::X1, rs2: Reg::X1, imm: Int13Trunc1::new(8) }, true),
        (Instruction::Bne { rs1: Reg::X1, rs2: Reg::X1, imm: Int13Trunc1::new(8) }, false),
    ];
    for (inst, taken) in cases {
        let (mut hart, mut bus, mut cells) = machine(&[inst]);
        hart.reg.set(Reg::X1, 0xffff_ffff);
        hart.reg.set(Reg::X2, 1);
        let c = hart.step(&mut bus, &mut cells);
        if taken {
            assert_eq!((c, hart.pc), (Conclusion::Jumped, 8));
        } else {
            assert_eq!((c, hart.pc), (Conclusion::Proceed, 4));
        }
    }
}

#[test]
fn atomics_go_to_the_region() {
    let program = [
        Instruction::AmoAddw { rd: Reg::X3, rs1: Reg::X2, rs2: Reg::X1, aq: false, rl: false },
        Instruction::AmoSwapw { rd: Reg::X4, rs1: Reg::X2, rs2: Reg::X0, aq: true, rl: false },
        Instruction::AmoMaxuw { rd: Reg::X5, rs1: Reg::X2, rs2: Reg::X1, aq: false, rl: false },
        Instruction::AmoAddw { rd: Reg::X6, rs1: Reg::X7, rs2: Reg::X1, aq: false, rl: false },
        Instruction::AmoOrw { rd: Reg::X6, rs1: Reg::X8, rs2: Reg::X1, aq: false, rl: false },
        Instruction::AmoAddw { rd: Reg::X6, rs1: Reg::X9, rs2: Reg::X1, aq: false, rl: false },
    ];
    let mut cells = Reservations::new();
    let cell = cells.add_cell();
    let device = Main::with_attributes(0x80000, 1, Pma { amo: AmoClass::Logical, ..Pma::main() });
    let mut bus = Bus::builder().with_main_memory(1).with_mapping(device).build();
    assert_eq!(bus.set_mm(&assemble(&program), &mut cells), Ok(24));
    assert_eq!(bus.store_word(0x200, 40, &mut cells), Ok(()));
    let mut hart = Hart::new(cell);
    hart.reg.set(Reg::X1, 2);
    hart.reg.set(Reg::X2, 0x200);
    hart.reg.set(Reg::X7, 0x8000_0000);
    hart.reg.set(Reg::X8, 0x8000_0000);
    hart.reg.set(Reg::X9, 0x202);
    hart.reg.set(Reg::X6, 9);
    assert_eq!(hart.step(&mut bus, &mut cells), Conclusion::Proceed);
    assert_eq!(hart.reg.get(Reg::X3), 40);
    assert_eq!(bus.load_word(0x200), Ok(42));
    assert_eq!(hart.step(&mut bus, &mut cells), Conclusion::Proceed);
    assert_eq!(hart.reg.get(Reg::X4), 42);
    assert_eq!(hart.step(&mut bus, &mut cells), Conclusion::Proceed);
    assert_eq!(hart.reg.get(Reg::X5), 0);
    assert_eq!(bus.load_word(0x200), Ok(2));
    assert_eq!(hart.step(&mut bus, &mut cells), Conclusion::Exception(STORE_ACCESS_FAULT));
    assert_eq!(hart.reg.get(Reg::X6), 9);
    assert_eq!(hart.pc, 12);
    hart.pc = 16;
    assert_eq!(hart.step(&mut bus, &mut cells), Conclusion::Proceed);
    assert_eq!(hart.reg.get(Reg::X6), 0);
    assert_eq!(bus.load_word(0x8000_0000), Ok(2));
    assert_eq!(hart.step(&mut bus, &mut cells), Conclusion::Exception(STORE_ADDRESS_MISALIGNED));
}

#[test]
fn extensions_of_a_hart() {
    let program = [Instruction::Mul { rd: Reg::X1, rs1: Reg::X1, rs2: Reg::X1 }];
    let mut cells = Reservations::new();
    let cell = cells.add_cell();
    let mut bus = Bus::builder().with_main_memory(1).build();
    assert_eq!(bus.set_mm(&assemble(&program), &mut cells), Ok(4));
    let mut hart = Hart::with_extensions(cell, Extensions::base());
    assert_eq!(hart.step(&mut bus, &mut cells), Conclusion::Exception(ILLEGAL_INSTRUCTION));
    let mut hart = Hart::new(cell);
    assert_eq!(hart.step(&mut bus, &mut cells), Conclusion::Proceed);
}

#[test]
fn register_file() {
    let mut regs = RegisterFile::new();
    for n in 0..32 {
        assert_eq!(regs.get(Reg::from_u32(n)), 0);
    }
    regs.set(Reg::X0, 5);
    regs.set(Reg::Ignore, 6);
    regs.set(Reg::X31, 7);
    regs.set(Reg::X1, 8);
    assert_eq!(regs.get(Reg::X0), 0);
    assert_eq!(regs.get(Reg::Ignore), 0);
    assert_eq!(regs.get(Reg::X31), 7);
    assert_eq!(regs.get(Reg::X1), 8);
    assert_eq!(regs.get(Reg::X2), 0);
}

#[test]
fn instructions_by_their_flat_records() {
    let (mut h, mut bus, mut cells) = machine(&[]);
    let op = Operation::from_instruction(addi(Reg::X1, Reg::X0, -3));
    assert_eq!(op, Operation::new(InstructionKind::Addi, Reg::X1, Reg::X0, Reg::X0, 0xffff_fffd));
    assert_eq!(Rv32i::addi(&mut h, &op), Conclusion::Proceed);
    assert_eq!(h.reg.get(Reg::X1), 0xffff_fffd);
    let op = Operation::new(InstructionKind::Mul, Reg::X2, Reg::X1, Reg::X1, 0);
    assert_eq!(Rv32m::mul(&mut h, &op), Conclusion::Proceed);
    assert_eq!(h.reg.get(Reg::X2), 9);
    let op = Operation::new(InstructionKind::Srai, Reg::X3, Reg::X1, Reg::X0, 33);
    assert_eq!(op.shamt(), 1);
    assert_eq!(Rv32i::srai(&mut h, &op), Conclusion::Proceed);
    assert_eq!(h.reg.get(Reg::X3), 0xffff_fffe);
    let op = Operation::new(InstructionKind::Sw, Reg::X0, Reg::X0, Reg::X2, 0x104);
    assert_eq!(Rv32i::sw(&mut h, &op, &mut bus, &mut cells), Conclusion::Proceed);
    let op = Operation::new(InstructionKind::Lbu, Reg::X4, Reg::X0, Reg::X0, 0x104);
    assert_eq!(Rv32i::lbu(&mut h, &op, &mut bus, &mut cells), Conclusion::Proceed);
    assert_eq!(h.reg.get(Reg::X4), 9);
    let op = Operation::new(InstructionKind::Lw, Reg::X4, Reg::X0, Reg::X0, 0x102);
    assert_eq!(Rv32i::lw(&mut h, &op, &mut bus, &mut cells), Conclusion::Exception(LOAD_ADDRESS_MISALIGNED));
    h.pc = 0x20;
    let op = Operation::new(InstructionKind::Jal, Reg::X5, Reg::X0, Reg::X0, 0xffff_fff0);
    assert_eq!(Rv32i::jal(&mut h, &op), Conclusion::Jumped);
    assert_eq!((h.pc, h.reg.get(Reg::X5)), (0x10, 0x24));
    let op = Operation::new(InstructionKind::Bltu, Reg::X0, Reg::X2, Reg::X1, 8);
    assert_eq!(Rv32i::bltu(&mut h, &op), Conclusion::Jumped);
    assert_eq!(h.pc, 0x18);
    let op = Operation::new(InstructionKind::Blt, Reg::X0, Reg::X2, Reg::X1, 8);
    assert_eq!(Rv32i::blt(&mut h, &op), Conclusion::Proceed);
    assert_eq!(Rv32i::fence(&mut h, &op), Conclusion::Proceed);
    assert_eq!(Rv32i::ecall(&mut h, &op), Conclusion::Exception(ENVIRONMENT_CALL));
    assert_eq!(Rv32i::ebreak(&mut h, &op), Conclusion::Exception(BREAKPOINT));
    assert_eq!(Zicsr::csrrw(&mut h, &op), Conclusion::Exception(ILLEGAL_INSTRUCTION));
    let scw = Instruction::Scw { rd: Reg::X3, rs1: Reg::X2, rs2: Reg::X1, aq: true, rl: false };
    assert_eq!(Operation::from_instruction(scw), Operation::new(InstructionKind::Scw, Reg::X3, Reg::X2, Reg::X1, 2));
    let csr = Instruction::CsrRsi { rd: Reg::X1, uimm: UInt5::new(5), csr: Csr::new(0x300) };
    assert_eq!(Operation::from_instruction(csr).imm(), 0x300 * 32 + 5);
    assert_eq!(Instruction::from(0x0050_0093u32), addi(Reg::X1, Reg::X0, 5));
    assert_eq!(i32::from(Int12::new(-7)), -7);
    assert_eq!(u32::from(UInt5::new(7)), 7);
}

#[test]
fn a_hart_gives_and_takes_its_registers_and_its_program_counter() {
    let program = [
        Instruction::Sw { rs1: Reg::X0, rs2: Reg::X1, imm: Int12::new(0x100) },
        Instruction::Lw { rd: Reg::X2, rs1: Reg::X0, imm: Int12::new(0x100) },
        Instruction::Ecall,
    ];
    let (mut hart, mut bus, mut cells) = machine(&program);
    assert_eq!(hart.pc(), 0);
    hart.set_reg(Reg::X1, 0xdead_beef);
    hart.set_reg(Reg::X0, 7);
    hart.set_reg(Reg::Ignore, 7);
    assert_eq!(hart.get_reg(Reg::X1), 0xdead_beef);
    assert_eq!(hart.get_reg(Reg::X0), 0);
    assert_eq!(hart.get_reg(Reg::Ignore), 0);
    assert_eq!(hart.step(&mut bus, &mut cells), Conclusion::Proceed);
    assert_eq!(hart.step(&mut bus, &mut cells), Conclusion::Proceed);
    assert_eq!(hart.get_reg(Reg::X2), 0xdead_beef);
    assert_eq!(hart.pc(), 8);
    assert_eq!(hart.step(&mut bus, &mut cells), Conclusion::Exception(ENVIRONMENT_CALL));
    assert_eq!(hart.pc(), 8);
    hart.set_pc(4);
    assert_eq!(hart.pc(), 4);
    assert_eq!(hart.step(&mut bus, &mut cells), Conclusion::Proceed);
    assert_eq!(hart.pc(), 8);
}
