use vstd::prelude::*;
use crate::bus::Bus;
use crate::bus::BusView;
use crate::hart::alu::alu;
use crate::hart::alu::wrapped;
use crate::hart::alu::AluOp;
use crate::hart::instruction::types::Conclusion;
use crate::hart::instruction::Instruction;
use crate::hart::mmu::MmuError;
use crate::hart::mmu::MmuView;
use crate::hart::register::Reg;
use crate::hart::Hart;
use crate::hart::HartView;
use crate::memory::mapping::Mapping;
use crate::memory::mapping::MemoryError;
use crate::bus::BusError;
use crate::memory::model::AmoOp;
use crate::memory::reservation::Reservations;

verus! {

/// The target of a jump or of a branch that is taken is no multiple of four.
pub const INSTRUCTION_ADDRESS_MISALIGNED: u8 = 0;

/// The instruction could not be fetched.
pub const INSTRUCTION_ACCESS_FAULT: u8 = 1;

/// The word is no instruction that the hart carries out.
pub const ILLEGAL_INSTRUCTION: u8 = 2;

/// The instruction was a breakpoint.
pub const BREAKPOINT: u8 = 3;

/// The address of a load was not aligned to its width.
pub const LOAD_ADDRESS_MISALIGNED: u8 = 4;

/// The load could not be carried out.
pub const LOAD_ACCESS_FAULT: u8 = 5;

/// The address of a store or of an atomic operation was not aligned to its width.
pub const STORE_ADDRESS_MISALIGNED: u8 = 6;

/// The store or the atomic operation could not be carried out.
pub const STORE_ACCESS_FAULT: u8 = 7;

/// The instruction was a call to the environment.
pub const ENVIRONMENT_CALL: u8 = 11;

/// The condition of a branch.
#[derive(Debug, Clone, Copy, PartialEq, Eq, Structural)]
pub enum BranchCond {
    Eq,
    Ne,
    Lt,
    Ge,
    Ltu,
    Geu,
}

impl BranchCond {
    /// Whether the condition holds of `a` and `b`.
    pub open spec fn spec_holds(self, a: u32, b: u32) -> bool {
        match self {
            BranchCond::Eq => a == b,
            BranchCond::Ne => a != b,
            BranchCond::Lt => crate::hart::alu::signed(a) < crate::hart::alu::signed(b),
            BranchCond::Ge => crate::hart::alu::signed(a) >= crate::hart::alu::signed(b),
            BranchCond::Ltu => a < b,
            BranchCond::Geu => a >= b,
        }
    }

    /// Tells whether the condition holds of `a` and `b`.
    pub fn holds(self, a: u32, b: u32) -> (taken: bool)
        ensures
            taken == self.spec_holds(a, b),
    {
        match self {
            BranchCond::Eq => a == b,
            BranchCond::Ne => a != b,
            BranchCond::Lt => alu(AluOp::Slt, a, b) == 1,
            BranchCond::Ge => alu(AluOp::Slt, a, b) == 0,
            BranchCond::Ltu => a < b,
            BranchCond::Geu => a >= b,
        }
    }
}

/// The exception that a failed fetch raises.
pub open spec fn spec_fetch_fault(e: MmuError) -> u8 {
    match e {
        MmuError::LoadMisaligned { .. } => INSTRUCTION_ADDRESS_MISALIGNED,
        _ => INSTRUCTION_ACCESS_FAULT,
    }
}

/// The exception that a failed load raises.
pub open spec fn spec_load_fault(e: MmuError) -> u8 {
    match e {
        MmuError::LoadMisaligned { .. } => LOAD_ADDRESS_MISALIGNED,
        MmuError::BusError { e: BusError::MemoryError { e: MemoryError::LoadMisaligned { .. } } } => LOAD_ADDRESS_MISALIGNED,
        _ => LOAD_ACCESS_FAULT,
    }
}

/// The exception that a failed store or a failed atomic operation raises.
pub open spec fn spec_store_fault(e: MmuError) -> u8 {
    match e {
        MmuError::StoreMisaligned { .. } => STORE_ADDRESS_MISALIGNED,
        MmuError::BusError { e: BusError::MemoryError { e: MemoryError::StoreMisaligned { .. } } } => STORE_ADDRESS_MISALIGNED,
        MmuError::BusError { e: BusError::MemoryError { e: MemoryError::AmoMisaligned { .. } } } => STORE_ADDRESS_MISALIGNED,
        _ => STORE_ACCESS_FAULT,
    }
}

pub fn fetch_fault(e: MmuError) -> (code: u8)
    ensures
        code == spec_fetch_fault(e),
{
    match e {
        MmuError::LoadMisaligned { .. } => INSTRUCTION_ADDRESS_MISALIGNED,
        _ => INSTRUCTION_ACCESS_FAULT,
    }
}

pub fn load_fault(e: MmuError) -> (code: u8)
    ensures
        code == spec_load_fault(e),
{
    match e {
        MmuError::LoadMisaligned { .. } => LOAD_ADDRESS_MISALIGNED,
        MmuError::BusError { e: BusError::MemoryError { e: MemoryError::LoadMisaligned { .. } } } => LOAD_ADDRESS_MISALIGNED,
        _ => LOAD_ACCESS_FAULT,
    }
}

pub fn store_fault(e: MmuError) -> (code: u8)
    ensures
        code == spec_store_fault(e),
{
    match e {
        MmuError::StoreMisaligned { .. } => STORE_ADDRESS_MISALIGNED,
        MmuError::BusError { e: BusError::MemoryError { e: MemoryError::StoreMisaligned { .. } } } => STORE_ADDRESS_MISALIGNED,
        MmuError::BusError { e: BusError::MemoryError { e: MemoryError::AmoMisaligned { .. } } } => STORE_ADDRESS_MISALIGNED,
        _ => STORE_ACCESS_FAULT,
    }
}

/// What a load gives when it is extended to a word: a signed byte or half
/// word keeps its sign.
pub open spec fn extended(v: u32, width: u32, keep_sign: bool) -> u32 {
    if keep_sign && width == 1 && v >= 0x80 {
        wrapped(v + 0xffff_ff00)
    } else if keep_sign && width == 2 && v >= 0x8000 {
        wrapped(v + 0xffff_0000)
    } else {
        v
    }
}

/// A hart with the bus and the reservation cells, as a value.
pub struct Machine {
    pub hart: HartView,
    pub bus: BusView,
    pub cells: Seq<u32>,
}

/// A machine after an instruction, and what became of the instruction.
pub struct Stepped {
    pub machine: Machine,
    pub conclusion: Conclusion,
}

/// A hart after an instruction, and what became of the instruction.
pub struct HartStepped {
    pub hart: HartView,
    pub conclusion: Conclusion,
}

/// The address that `offset` from `base` gives, cut to 32 bits.
pub open spec fn address_of(base: u32, offset: int) -> u32 {
    wrapped(base + offset)
}

impl HartView {
    /// The value of a register.
    pub open spec fn reg(self, r: Reg) -> u32 {
        self.regs[r.number()]
    }

    /// The hart after a write to a register. A write to `X0` is dropped.
    pub open spec fn set_reg(self, rd: Reg, val: u32) -> HartView {
        if rd.is_zero() {
            self
        } else {
            HartView { regs: self.regs.update(rd.number(), val), ..self }
        }
    }

    pub open spec fn set_pc(self, pc: u32) -> HartView {
        HartView { pc, ..self }
    }

    pub open spec fn proceed(self) -> HartStepped {
        HartStepped { hart: self, conclusion: Conclusion::Proceed }
    }

    pub open spec fn raise(self, code: u8) -> HartStepped {
        HartStepped { hart: self, conclusion: Conclusion::Exception(code) }
    }

    /// A jump to `target` that leaves the address of the next instruction in
    /// `rd`. A target that is no multiple of four raises an exception, and
    /// nothing changes.
    #[verifier::opaque]
    pub open spec fn jump(self, rd: Reg, target: u32) -> HartStepped {
        if target % 4 != 0 {
            self.raise(INSTRUCTION_ADDRESS_MISALIGNED)
        } else {
            HartStepped {
                hart: self.set_reg(rd, wrapped(self.pc + 4)).set_pc(target),
                conclusion: Conclusion::Jumped,
            }
        }
    }

    #[verifier::opaque]
    pub open spec fn op(self, op: AluOp, rd: Reg, rs1: Reg, rs2: Reg) -> HartStepped {
        self.set_reg(rd, op.spec_apply(self.reg(rs1), self.reg(rs2))).proceed()
    }

    #[verifier::opaque]
    pub open spec fn op_imm(self, op: AluOp, rd: Reg, rs1: Reg, imm: u32) -> HartStepped {
        self.set_reg(rd, op.spec_apply(self.reg(rs1), imm)).proceed()
    }

    #[verifier::opaque]
    pub open spec fn lui(self, rd: Reg, imm: u32) -> HartStepped {
        self.set_reg(rd, imm).proceed()
    }

    #[verifier::opaque]
    pub open spec fn auipc(self, rd: Reg, imm: int) -> HartStepped {
        self.set_reg(rd, address_of(self.pc, imm)).proceed()
    }

    #[verifier::opaque]
    pub open spec fn jal(self, rd: Reg, imm: int) -> HartStepped {
        self.jump(rd, address_of(self.pc, imm))
    }

    /// The target of a jump by register has its lowest bit cleared.
    #[verifier::opaque]
    pub open spec fn jalr(self, rd: Reg, rs1: Reg, imm: int) -> HartStepped {
        self.jump(rd, address_of(self.reg(rs1), imm) & 0xffff_fffe)
    }

    /// A branch that is taken jumps and links nothing; one that is not taken does nothing.
    #[verifier::opaque]
    pub open spec fn branch(self, cond: BranchCond, rs1: Reg, rs2: Reg, imm: int) -> HartStepped {
        if cond.spec_holds(self.reg(rs1), self.reg(rs2)) {
            self.jump(Reg::Ignore, address_of(self.pc, imm))
        } else {
            self.proceed()
        }
    }

    /// The instruction fence empties the instruction cache.
    #[verifier::opaque]
    pub open spec fn fence_i(self) -> HartStepped {
        HartView { mmu: self.mmu.with_i_cache(self.mmu.i_cache.cleared()), ..self }.proceed()
    }

    /// What an instruction does that touches nothing but the hart: a jump,
    /// a branch or a load of an upper immediate here, the others below. What
    /// the hart does not carry out, an access to a control and status
    /// register among it, is an illegal instruction.
    #[verifier::opaque]
    pub open spec fn execute(self, inst: Instruction) -> HartStepped {
        match inst {
            Instruction::Lui { rd, imm } => self.lui(rd, wrapped(imm@)),
            Instruction::Auipc { rd, imm } => self.auipc(rd, imm@),
            Instruction::Jal { rd, imm } => self.jal(rd, imm@),
            Instruction::Jalr { rd, rs1, imm } => self.jalr(rd, rs1, imm@),
            Instruction::Beq { rs1, rs2, imm } => self.branch(BranchCond::Eq, rs1, rs2, imm@),
            Instruction::Bne { rs1, rs2, imm } => self.branch(BranchCond::Ne, rs1, rs2, imm@),
            Instruction::Blt { rs1, rs2, imm } => self.branch(BranchCond::Lt, rs1, rs2, imm@),
            Instruction::Bge { rs1, rs2, imm } => self.branch(BranchCond::Ge, rs1, rs2, imm@),
            Instruction::Bltu { rs1, rs2, imm } => self.branch(BranchCond::Ltu, rs1, rs2, imm@),
            Instruction::Bgeu { rs1, rs2, imm } => self.branch(BranchCond::Geu, rs1, rs2, imm@),
            _ => self.execute_immediate(inst),
        }
    }

    /// What an operation on a register and an immediate does.
    #[verifier::opaque]
    pub open spec fn execute_immediate(self, inst: Instruction) -> HartStepped {
        match inst {
            Instruction::Addi { rd, rs1, imm } => self.op_imm(AluOp::Add, rd, rs1, wrapped(imm@)),
            Instruction::Slti { rd, rs1, imm } => self.op_imm(AluOp::Slt, rd, rs1, wrapped(imm@)),
            Instruction::Sltiu { rd, rs1, imm } => self.op_imm(AluOp::Sltu, rd, rs1, wrapped(imm@)),
            Instruction::Xori { rd, rs1, imm } => self.op_imm(AluOp::Xor, rd, rs1, wrapped(imm@)),
            Instruction::Ori { rd, rs1, imm } => self.op_imm(AluOp::Or, rd, rs1, wrapped(imm@)),
            Instruction::Andi { rd, rs1, imm } => self.op_imm(AluOp::And, rd, rs1, wrapped(imm@)),
            Instruction::Slli { rd, rs1, shamt } => self.op_imm(AluOp::Sll, rd, rs1, shamt@ as u32),
            Instruction::Srli { rd, rs1, shamt } => self.op_imm(AluOp::Srl, rd, rs1, shamt@ as u32),
            Instruction::Srai { rd, rs1, shamt } => self.op_imm(AluOp::Sra, rd, rs1, shamt@ as u32),
            _ => self.execute_register(inst),
        }
    }

    /// What an operation on two registers does.
    #[verifier::opaque]
    pub open spec fn execute_register(self, inst: Instruction) -> HartStepped {
        match inst {
            Instruction::Add { rd, rs1, rs2 } => self.op(AluOp::Add, rd, rs1, rs2),
            Instruction::Sub { rd, rs1, rs2 } => self.op(AluOp::Sub, rd, rs1, rs2),
            Instruction::Sll { rd, rs1, rs2 } => self.op(AluOp::Sll, rd, rs1, rs2),
            Instruction::Slt { rd, rs1, rs2 } => self.op(AluOp::Slt, rd, rs1, rs2),
            Instruction::Sltu { rd, rs1, rs2 } => self.op(AluOp::Sltu, rd, rs1, rs2),
            Instruction::Xor { rd, rs1, rs2 } => self.op(AluOp::Xor, rd, rs1, rs2),
            Instruction::Srl { rd, rs1, rs2 } => self.op(AluOp::Srl, rd, rs1, rs2),
            Instruction::Sra { rd, rs1, rs2 } => self.op(AluOp::Sra, rd, rs1, rs2),
            Instruction::Or { rd, rs1, rs2 } => self.op(AluOp::Or, rd, rs1, rs2),
            Instruction::And { rd, rs1, rs2 } => self.op(AluOp::And, rd, rs1, rs2),
            _ => self.execute_multiply(inst),
        }
    }

    /// What a multiplication or a division does.
    #[verifier::opaque]
    pub open spec fn execute_multiply(self, inst: Instruction) -> HartStepped {
        match inst {
            Instruction::Mul { rd, rs1, rs2 } => self.op(AluOp::Mul, rd, rs1, rs2),
            Instruction::Mulh { rd, rs1, rs2 } => self.op(AluOp::Mulh, rd, rs1, rs2),
            Instruction::Mulhsu { rd, rs1, rs2 } => self.op(AluOp::Mulhsu, rd, rs1, rs2),
            Instruction::Mulhu { rd, rs1, rs2 } => self.op(AluOp::Mulhu, rd, rs1, rs2),
            Instruction::Div { rd, rs1, rs2 } => self.op(AluOp::Div, rd, rs1, rs2),
            Instruction::Divu { rd, rs1, rs2 } => self.op(AluOp::Divu, rd, rs1, rs2),
            Instruction::Rem { rd, rs1, rs2 } => self.op(AluOp::Rem, rd, rs1, rs2),
            Instruction::Remu { rd, rs1, rs2 } => self.op(AluOp::Remu, rd, rs1, rs2),
            _ => self.execute_system(inst),
        }
    }

    /// What a fence, a call to the environment or a breakpoint does: a fence
    /// does nothing, the instruction fence empties the instruction cache, the
    /// two others raise their exceptions.
    #[verifier::opaque]
    pub open spec fn execute_system(self, inst: Instruction) -> HartStepped {
        match inst {
            Instruction::Fence { .. } => self.proceed(),
            Instruction::Ecall => self.raise(ENVIRONMENT_CALL),
            Instruction::Ebreak => self.raise(BREAKPOINT),
            Instruction::Fencei { .. } => self.fence_i(),
            _ => self.raise(ILLEGAL_INSTRUCTION),
        }
    }
}

impl Machine {
    /// The value of a register.
    pub open spec fn reg(self, r: Reg) -> u32 {
        self.hart.reg(r)
    }

    pub open spec fn with_hart(self, hart: HartView) -> Machine {
        Machine { hart, ..self }
    }

    /// The machine after an instruction that touched nothing but the hart.
    pub open spec fn on_hart(self, done: HartStepped) -> Stepped {
        Stepped { machine: self.with_hart(done.hart), conclusion: done.conclusion }
    }

    pub open spec fn proceed(self) -> Stepped {
        Stepped { machine: self, conclusion: Conclusion::Proceed }
    }

    pub open spec fn raise(self, code: u8) -> Stepped {
        Stepped { machine: self, conclusion: Conclusion::Exception(code) }
    }

    #[verifier::opaque]
    pub open spec fn load(self, width: u32, keep_sign: bool, rd: Reg, rs1: Reg, imm: int) -> Stepped {
        let access = self.hart.mmu.load(self.bus, self.cells, address_of(self.reg(rs1), imm), width);
        let after = Machine { hart: HartView { mmu: access.mmu, ..self.hart }, bus: access.bus, cells: access.cells };
        match access.result {
            Ok(v) => after.with_hart(after.hart.set_reg(rd, extended(v, width, keep_sign))).proceed(),
            Err(e) => after.raise(spec_load_fault(e)),
        }
    }

    #[verifier::opaque]
    pub open spec fn store(self, width: u32, rs1: Reg, rs2: Reg, imm: int) -> Stepped {
        let access = self.hart.mmu.store(
            self.bus,
            self.cells,
            address_of(self.reg(rs1), imm),
            width,
            self.reg(rs2),
        );
        let after = Machine { hart: HartView { mmu: access.mmu, ..self.hart }, bus: access.bus, cells: access.cells };
        match access.result {
            Ok(_) => after.proceed(),
            Err(e) => after.raise(spec_store_fault(e)),
        }
    }

    #[verifier::opaque]
    pub open spec fn lr(self, rd: Reg, rs1: Reg) -> Stepped {
        let addr = self.reg(rs1);
        let after = Machine { cells: self.hart.mmu.load_reserved_cells(self.bus, self.cells, addr), ..self };
        match self.hart.mmu.load_reserved(self.bus, addr) {
            Ok(w) => after.with_hart(after.hart.set_reg(rd, w)).proceed(),
            Err(e) => after.raise(spec_load_fault(e)),
        }
    }

    #[verifier::opaque]
    pub open spec fn sc(self, rd: Reg, rs1: Reg, rs2: Reg) -> Stepped {
        let addr = self.reg(rs1);
        let after = Machine {
            bus: self.hart.mmu.store_conditional_bus(self.bus, self.cells, addr, self.reg(rs2)),
            cells: self.hart.mmu.store_conditional_cells(self.bus, self.cells, addr),
            ..self
        };
        match self.hart.mmu.store_conditional_result(self.bus, self.cells, addr) {
            Ok(v) => after.with_hart(after.hart.set_reg(rd, v)).proceed(),
            Err(e) => after.raise(spec_store_fault(e)),
        }
    }

    #[verifier::opaque]
    pub open spec fn amo(self, op: AmoOp, rd: Reg, rs1: Reg, rs2: Reg) -> Stepped {
        let addr = self.reg(rs1);
        let after = Machine {
            bus: self.bus.amo(op, addr, self.reg(rs2)),
            cells: self.bus.amo_cells(op, addr, self.cells),
            ..self
        };
        match MmuView::amo_result(self.bus, op, addr) {
            Ok(v) => after.with_hart(after.hart.set_reg(rd, v)).proceed(),
            Err(e) => after.raise(spec_store_fault(e)),
        }
    }

    /// What carrying out the instruction does: the machine afterwards, with
    /// the program counter moved only by a jump, and the conclusion. Loads
    /// and stores are here, the others below.
    #[verifier::opaque]
    pub open spec fn execute(self, inst: Instruction) -> Stepped {
        match inst {
            Instruction::Lb { rd, rs1, imm } => self.load(1, true, rd, rs1, imm@),
            Instruction::Lh { rd, rs1, imm } => self.load(2, true, rd, rs1, imm@),
            Instruction::Lw { rd, rs1, imm } => self.load(4, false, rd, rs1, imm@),
            Instruction::Lbu { rd, rs1, imm } => self.load(1, false, rd, rs1, imm@),
            Instruction::Lhu { rd, rs1, imm } => self.load(2, false, rd, rs1, imm@),
            Instruction::Sb { rs1, rs2, imm } => self.store(1, rs1, rs2, imm@),
            Instruction::Sh { rs1, rs2, imm } => self.store(2, rs1, rs2, imm@),
            Instruction::Sw { rs1, rs2, imm } => self.store(4, rs1, rs2, imm@),
            _ => self.execute_atomic(inst),
        }
    }

    /// What an atomic instruction does; other instructions touch nothing but the hart.
    #[verifier::opaque]
    pub open spec fn execute_atomic(self, inst: Instruction) -> Stepped {
        match inst {
            Instruction::Lrw { rd, rs1, .. } => self.lr(rd, rs1),
            Instruction::Scw { rd, rs1, rs2, .. } => self.sc(rd, rs1, rs2),
            Instruction::AmoSwapw { rd, rs1, rs2, .. } => self.amo(AmoOp::Swap, rd, rs1, rs2),
            Instruction::AmoAddw { rd, rs1, rs2, .. } => self.amo(AmoOp::Add, rd, rs1, rs2),
            Instruction::AmoXorw { rd, rs1, rs2, .. } => self.amo(AmoOp::Xor, rd, rs1, rs2),
            Instruction::AmoAndw { rd, rs1, rs2, .. } => self.amo(AmoOp::And, rd, rs1, rs2),
            Instruction::AmoOrw { rd, rs1, rs2, .. } => self.amo(AmoOp::Or, rd, rs1, rs2),
            Instruction::AmoMinw { rd, rs1, rs2, .. } => self.amo(AmoOp::Min, rd, rs1, rs2),
            Instruction::AmoMaxw { rd, rs1, rs2, .. } => self.amo(AmoOp::Max, rd, rs1, rs2),
            Instruction::AmoMinuw { rd, rs1, rs2, .. } => self.amo(AmoOp::Minu, rd, rs1, rs2),
            Instruction::AmoMaxuw { rd, rs1, rs2, .. } => self.amo(AmoOp::Maxu, rd, rs1, rs2),
            _ => self.on_hart(self.hart.execute(inst)),
        }
    }

    /// The machine after the instruction cache took in what the fetch brought.
    pub open spec fn fetched(self) -> Machine {
        self.with_hart(HartView { mmu: self.hart.mmu.load_instruction(self.bus, self.hart.pc).0, ..self.hart })
    }

    /// What one step does: the instruction at the program counter is fetched
    /// and carried out. After an instruction that concludes with nothing
    /// special, the program counter moves on by four; after a jump it is
    /// where the jump went; after an exception it is where it was.
    pub open spec fn step(self) -> Stepped {
        match self.hart.mmu.load_instruction(self.bus, self.hart.pc).1 {
            Err(e) => self.fetched().raise(spec_fetch_fault(e)),
            Ok(inst) => {
                let done = self.fetched().execute(inst);
                if done.conclusion == Conclusion::Proceed {
                    Stepped {
                        machine: done.machine.with_hart(done.machine.hart.set_pc(wrapped(done.machine.hart.pc + 4))),
                        ..done
                    }
                } else {
                    done
                }
            },
        }
    }
}

/// Whether the registers are 32 and the first of them holds zero.
pub open spec fn zero_is_zero(hart: HartView) -> bool {
    hart.regs.len() == 32 && hart.regs[0] == 0
}

/// A write to a register leaves the first register at zero.
pub proof fn lemma_set_reg_keeps_zero(hart: HartView, rd: Reg, val: u32)
    requires
        zero_is_zero(hart),
    ensures
        zero_is_zero(hart.set_reg(rd, val)),
{
}

/// The operations of the hart on its registers leave the first register at zero.
pub proof fn lemma_operations_keep_zero(hart: HartView)
    requires
        zero_is_zero(hart),
    ensures
        forall|rd: Reg, target: u32| zero_is_zero((#[trigger] hart.jump(rd, target)).hart),
        forall|op: AluOp, rd: Reg, rs1: Reg, rs2: Reg| zero_is_zero((#[trigger] hart.op(op, rd, rs1, rs2)).hart),
        forall|op: AluOp, rd: Reg, rs1: Reg, imm: u32| zero_is_zero((#[trigger] hart.op_imm(op, rd, rs1, imm)).hart),
        forall|rd: Reg, imm: u32| zero_is_zero((#[trigger] hart.lui(rd, imm)).hart),
        forall|rd: Reg, imm: int| zero_is_zero((#[trigger] hart.auipc(rd, imm)).hart),
        forall|rd: Reg, imm: int| zero_is_zero((#[trigger] hart.jal(rd, imm)).hart),
        forall|rd: Reg, rs1: Reg, imm: int| zero_is_zero((#[trigger] hart.jalr(rd, rs1, imm)).hart),
        forall|cond: BranchCond, rs1: Reg, rs2: Reg, imm: int|
            zero_is_zero((#[trigger] hart.branch(cond, rs1, rs2, imm)).hart),
        zero_is_zero(hart.fence_i().hart),
{
    reveal(HartView::jump);
    reveal(HartView::op);
    reveal(HartView::op_imm);
    reveal(HartView::lui);
    reveal(HartView::auipc);
    reveal(HartView::jal);
    reveal(HartView::jalr);
    reveal(HartView::branch);
    reveal(HartView::fence_i);
}

/// A fence, a call to the environment, a breakpoint or an illegal
/// instruction leaves the first register at zero.
proof fn lemma_system_keeps_zero(hart: HartView, inst: Instruction)
    requires
        zero_is_zero(hart),
    ensures
        zero_is_zero(hart.execute_system(inst).hart),
{
    reveal(HartView::execute_system);
    lemma_operations_keep_zero(hart);
}

proof fn lemma_multiply_keeps_zero(hart: HartView, inst: Instruction)
    requires
        zero_is_zero(hart),
    ensures
        zero_is_zero(hart.execute_multiply(inst).hart),
{
    reveal(HartView::execute_multiply);
    lemma_operations_keep_zero(hart);
    lemma_system_keeps_zero(hart, inst);
}

proof fn lemma_register_keeps_zero(hart: HartView, inst: Instruction)
    requires
        zero_is_zero(hart),
    ensures
        zero_is_zero(hart.execute_register(inst).hart),
{
    reveal(HartView::execute_register);
    lemma_operations_keep_zero(hart);
    lemma_multiply_keeps_zero(hart, inst);
}

proof fn lemma_immediate_keeps_zero(hart: HartView, inst: Instruction)
    requires
        zero_is_zero(hart),
    ensures
        zero_is_zero(hart.execute_immediate(inst).hart),
{
    reveal(HartView::execute_immediate);
    lemma_operations_keep_zero(hart);
    lemma_register_keeps_zero(hart, inst);
}

/// An instruction that touches nothing but the hart leaves the first register at zero.
pub proof fn lemma_hart_keeps_zero(hart: HartView, inst: Instruction)
    requires
        zero_is_zero(hart),
    ensures
        zero_is_zero(hart.execute(inst).hart),
{
    reveal(HartView::execute);
    lemma_operations_keep_zero(hart);
    lemma_immediate_keeps_zero(hart, inst);
}

/// The accesses of the hart to memory leave the first register at zero.
pub proof fn lemma_accesses_keep_zero(m: Machine)
    requires
        zero_is_zero(m.hart),
    ensures
        forall|width: u32, keep_sign: bool, rd: Reg, rs1: Reg, imm: int|
            zero_is_zero((#[trigger] m.load(width, keep_sign, rd, rs1, imm)).machine.hart),
        forall|width: u32, rs1: Reg, rs2: Reg, imm: int|
            zero_is_zero((#[trigger] m.store(width, rs1, rs2, imm)).machine.hart),
        forall|rd: Reg, rs1: Reg| zero_is_zero((#[trigger] m.lr(rd, rs1)).machine.hart),
        forall|rd: Reg, rs1: Reg, rs2: Reg| zero_is_zero((#[trigger] m.sc(rd, rs1, rs2)).machine.hart),
        forall|op: AmoOp, rd: Reg, rs1: Reg, rs2: Reg| zero_is_zero((#[trigger] m.amo(op, rd, rs1, rs2)).machine.hart),
{
    reveal(Machine::load);
    reveal(Machine::store);
    reveal(Machine::lr);
    reveal(Machine::sc);
    reveal(Machine::amo);
}

proof fn lemma_atomic_keeps_zero(m: Machine, inst: Instruction)
    requires
        zero_is_zero(m.hart),
    ensures
        zero_is_zero(m.execute_atomic(inst).machine.hart),
{
    reveal(Machine::execute_atomic);
    lemma_accesses_keep_zero(m);
    lemma_hart_keeps_zero(m.hart, inst);
}

/// The first register is hard-wired to zero: whatever instruction a hart
/// carries out, the register holds zero afterwards as it did before.
pub proof fn lemma_execute_keeps_zero(m: Machine, inst: Instruction)
    requires
        zero_is_zero(m.hart),
    ensures
        zero_is_zero(m.execute(inst).machine.hart),
{
    reveal(Machine::execute);
    lemma_accesses_keep_zero(m);
    lemma_atomic_keeps_zero(m, inst);
}

/// A step leaves the first register at zero.
pub proof fn lemma_step_keeps_zero(m: Machine)
    requires
        zero_is_zero(m.hart),
    ensures
        zero_is_zero(m.step().machine.hart),
{
    match m.hart.mmu.load_instruction(m.bus, m.hart.pc).1 {
        Ok(inst) => lemma_execute_keeps_zero(m.fetched(), inst),
        Err(_) => {},
    }
}

/// The machine that a hart, a bus and reservation cells make up.
pub open spec fn machine(hart: &Hart, bus: &Bus, cells: &Reservations) -> Machine {
    Machine { hart: hart@, bus: bus@, cells: cells@ }
}

/// Something that carries out instructions one at a time.
pub trait Step {
    /// Whether the state is in order, so that it can step.
    spec fn can_step(&self) -> bool;

    /// Carries out one instruction.
    fn step(&mut self, bus: &mut Bus, cells: &mut Reservations) -> (c: Conclusion)
        requires
            old(self).can_step(),
            old(bus).wf(),
        ensures
            final(self).can_step(),
            final(bus).wf(),
    ;
}

/// The word that stands for a signed number.
pub fn to_word(v: i32) -> (w: u32)
    ensures
        w == wrapped(v as int),
{
    0u32.wrapping_add_signed(v)
}

impl Hart {
    /// Adds an offset to an address and cuts to 32 bits.
    fn address(base: u32, offset: i32) -> (a: u32)
        ensures
            a == address_of(base, offset as int),
    {
        base.wrapping_add_signed(offset)
    }

    /// Jumps to `target` and leaves the address of the next instruction in `rd`.
    pub fn jump(&mut self, rd: Reg, target: u32) -> (c: Conclusion)
        requires
            old(self).wf(),
        ensures
            final(self).wf(),
            final(self)@ == old(self)@.jump(rd, target).hart,
            c == old(self)@.jump(rd, target).conclusion,
    {
        proof {
            reveal(HartView::jump);
        }
        if target % 4 != 0 {
            Conclusion::Exception(INSTRUCTION_ADDRESS_MISALIGNED)
        } else {
            let link: u32 = self.pc.wrapping_add(4);
            self.reg.set(rd, link);
            self.pc = target;
            Conclusion::Jumped
        }
    }

    /// Carries out an operation on two registers.
    pub fn op(&mut self, op: AluOp, rd: Reg, rs1: Reg, rs2: Reg) -> (c: Conclusion)
        requires
            old(self).wf(),
        ensures
            final(self).wf(),
            final(self)@ == old(self)@.op(op, rd, rs1, rs2).hart,
            c == old(self)@.op(op, rd, rs1, rs2).conclusion,
            c == Conclusion::Proceed,
    {
        proof {
            reveal(HartView::op);
        }
        let val: u32 = alu(op, self.reg.get(rs1), self.reg.get(rs2));
        self.reg.set(rd, val);
        Conclusion::Proceed
    }

    /// Carries out an operation on a register and an immediate.
    pub fn op_imm(&mut self, op: AluOp, rd: Reg, rs1: Reg, imm: u32) -> (c: Conclusion)
        requires
            old(self).wf(),
        ensures
            final(self).wf(),
            final(self)@ == old(self)@.op_imm(op, rd, rs1, imm).hart,
            c == old(self)@.op_imm(op, rd, rs1, imm).conclusion,
            c == Conclusion::Proceed,
    {
        proof {
            reveal(HartView::op_imm);
        }
        let val: u32 = alu(op, self.reg.get(rs1), imm);
        self.reg.set(rd, val);
        Conclusion::Proceed
    }

    /// Loads the upper immediate into `rd`.
    pub fn load_upper(&mut self, rd: Reg, imm: u32) -> (c: Conclusion)
        requires
            old(self).wf(),
        ensures
            final(self).wf(),
            final(self)@ == old(self)@.lui(rd, imm).hart,
            c == old(self)@.lui(rd, imm).conclusion,
            c == Conclusion::Proceed,
    {
        proof {
            reveal(HartView::lui);
        }
        self.reg.set(rd, imm);
        Conclusion::Proceed
    }

    /// Adds the upper immediate to the program counter and leaves the sum in `rd`.
    pub fn add_upper(&mut self, rd: Reg, imm: i32) -> (c: Conclusion)
        requires
            old(self).wf(),
        ensures
            final(self).wf(),
            final(self)@ == old(self)@.auipc(rd, imm as int).hart,
            c == old(self)@.auipc(rd, imm as int).conclusion,
            c == Conclusion::Proceed,
    {
        proof {
            reveal(HartView::auipc);
        }
        self.reg.set(rd, Self::address(self.pc, imm));
        Conclusion::Proceed
    }

    /// Jumps by `imm` from the program counter and links.
    pub fn jump_and_link(&mut self, rd: Reg, imm: i32) -> (c: Conclusion)
        requires
            old(self).wf(),
        ensures
            final(self).wf(),
            final(self)@ == old(self)@.jal(rd, imm as int).hart,
            c == old(self)@.jal(rd, imm as int).conclusion,
    {
        proof {
            reveal(HartView::jal);
            reveal(HartView::jump);
        }
        let target: u32 = Self::address(self.pc, imm);
        self.jump(rd, target)
    }

    /// Jumps to `imm` from the value of `rs1`, with the lowest bit cleared, and links.
    pub fn jump_and_link_register(&mut self, rd: Reg, rs1: Reg, imm: i32) -> (c: Conclusion)
        requires
            old(self).wf(),
        ensures
            final(self).wf(),
            final(self)@ == old(self)@.jalr(rd, rs1, imm as int).hart,
            c == old(self)@.jalr(rd, rs1, imm as int).conclusion,
    {
        proof {
            reveal(HartView::jalr);
            reveal(HartView::jump);
        }
        let target: u32 = Self::address(self.reg.get(rs1), imm) & 0xffff_fffe;
        self.jump(rd, target)
    }

    /// Jumps by `imm` from the program counter if the condition holds of the two registers.
    pub fn branch(&mut self, cond: BranchCond, rs1: Reg, rs2: Reg, imm: i32) -> (c: Conclusion)
        requires
            old(self).wf(),
        ensures
            final(self).wf(),
            final(self)@ == old(self)@.branch(cond, rs1, rs2, imm as int).hart,
            c == old(self)@.branch(cond, rs1, rs2, imm as int).conclusion,
    {
        proof {
            reveal(HartView::branch);
            reveal(HartView::jump);
        }
        if cond.holds(self.reg.get(rs1), self.reg.get(rs2)) {
            let target: u32 = Self::address(self.pc, imm);
            self.jump(Reg::Ignore, target)
        } else {
            Conclusion::Proceed
        }
    }

    /// Loads `width` bytes at `imm` from the value of `rs1` into `rd`.
    pub fn load(
        &mut self,
        width: u32,
        keep_sign: bool,
        rd: Reg,
        rs1: Reg,
        imm: i32,
        bus: &mut Bus,
        cells: &mut Reservations,
    ) -> (c: Conclusion)
        requires
            old(self).wf(),
            old(bus).wf(),
            width == 1 || width == 2 || width == 4,
        ensures
            final(self).wf(),
            final(bus).wf(),
            machine(final(self), final(bus), final(cells)) == machine(old(self), old(bus), old(cells)).load(
                width,
                keep_sign,
                rd,
                rs1,
                imm as int,
            ).machine,
            c == machine(old(self), old(bus), old(cells)).load(width, keep_sign, rd, rs1, imm as int).conclusion,
    {
        proof {
            reveal(Machine::load);
        }
        let addr: u32 = Self::address(self.reg.get(rs1), imm);
        match self.mmu.load(bus, cells, addr, width) {
            Ok(v) => {
                let val: u32 = if keep_sign && width == 1 && v >= 0x80 {
                    v.wrapping_add(0xffff_ff00)
                } else if keep_sign && width == 2 && v >= 0x8000 {
                    v.wrapping_add(0xffff_0000)
                } else {
                    v
                };
                self.reg.set(rd, val);
                Conclusion::Proceed
            },
            Err(e) => Conclusion::Exception(load_fault(e)),
        }
    }

    /// Stores the `width` lowest bytes of `rs2` at `imm` from the value of `rs1`.
    pub fn store(&mut self, width: u32, rs1: Reg, rs2: Reg, imm: i32, bus: &mut Bus, cells: &mut Reservations) -> (c:
        Conclusion)
        requires
            old(self).wf(),
            old(bus).wf(),
            width == 1 || width == 2 || width == 4,
        ensures
            final(self).wf(),
            final(bus).wf(),
            machine(final(self), final(bus), final(cells)) == machine(old(self), old(bus), old(cells)).store(
                width,
                rs1,
                rs2,
                imm as int,
            ).machine,
            c == machine(old(self), old(bus), old(cells)).store(width, rs1, rs2, imm as int).conclusion,
    {
        proof {
            reveal(Machine::store);
        }
        let addr: u32 = Self::address(self.reg.get(rs1), imm);
        let val: u32 = self.reg.get(rs2);
        match self.mmu.store(bus, cells, addr, width, val) {
            Ok(_) => Conclusion::Proceed,
            Err(e) => Conclusion::Exception(store_fault(e)),
        }
    }

    /// Empties the instruction cache.
    pub fn fence_i(&mut self) -> (c: Conclusion)
        requires
            old(self).wf(),
        ensures
            final(self).wf(),
            final(self)@ == old(self)@.fence_i().hart,
            c == old(self)@.fence_i().conclusion,
            c == Conclusion::Proceed,
    {
        proof {
            reveal(HartView::fence_i);
        }
        self.mmu.fence_i();
        Conclusion::Proceed
    }

    /// Loads the word at the address in `rs1` into `rd` and reserves its set.
    pub fn lr(&mut self, rd: Reg, rs1: Reg, bus: &mut Bus, cells: &mut Reservations) -> (c: Conclusion)
        requires
            old(self).wf(),
            old(bus).wf(),
        ensures
            final(self).wf(),
            final(bus).wf(),
            machine(final(self), final(bus), final(cells)) == machine(old(self), old(bus), old(cells)).lr(rd, rs1).machine,
            c == machine(old(self), old(bus), old(cells)).lr(rd, rs1).conclusion,
    {
        proof {
            reveal(Machine::lr);
        }
        let addr: u32 = self.reg.get(rs1);
        match self.mmu.load_reserved(bus, cells, addr) {
            Ok(w) => {
                self.reg.set(rd, w);
                Conclusion::Proceed
            },
            Err(e) => Conclusion::Exception(load_fault(e)),
        }
    }

    /// Stores `rs2` at the address in `rs1` if the hart holds the
    /// reservation, and leaves 0 in `rd` if it stored and 1 if not.
    pub fn sc(&mut self, rd: Reg, rs1: Reg, rs2: Reg, bus: &mut Bus, cells: &mut Reservations) -> (c: Conclusion)
        requires
            old(self).wf(),
            old(bus).wf(),
        ensures
            final(self).wf(),
            final(bus).wf(),
            machine(final(self), final(bus), final(cells)) == machine(old(self), old(bus), old(cells)).sc(
                rd,
                rs1,
                rs2,
            ).machine,
            c == machine(old(self), old(bus), old(cells)).sc(rd, rs1, rs2).conclusion,
    {
        proof {
            reveal(Machine::sc);
        }
        let addr: u32 = self.reg.get(rs1);
        let val: u32 = self.reg.get(rs2);
        match self.mmu.store_conditional(bus, cells, addr, val) {
            Ok(v) => {
                self.reg.set(rd, v);
                Conclusion::Proceed
            },
            Err(e) => Conclusion::Exception(store_fault(e)),
        }
    }

    /// Performs an atomic memory operation on the word at the address in
    /// `rs1` with the operand `rs2`, and leaves the word that was there in `rd`.
    pub fn amo(&mut self, op: AmoOp, rd: Reg, rs1: Reg, rs2: Reg, bus: &mut Bus, cells: &mut Reservations) -> (c:
        Conclusion)
        requires
            old(self).wf(),
            old(bus).wf(),
        ensures
            final(self).wf(),
            final(bus).wf(),
            machine(final(self), final(bus), final(cells)) == machine(old(self), old(bus), old(cells)).amo(
                op,
                rd,
                rs1,
                rs2,
            ).machine,
            c == machine(old(self), old(bus), old(cells)).amo(op, rd, rs1, rs2).conclusion,
    {
        proof {
            reveal(Machine::amo);
        }
        let addr: u32 = self.reg.get(rs1);
        let src: u32 = self.reg.get(rs2);
        match self.mmu.atomic(bus, cells, op, addr, src) {
            Ok(v) => {
                self.reg.set(rd, v);
                Conclusion::Proceed
            },
            Err(e) => Conclusion::Exception(store_fault(e)),
        }
    }

}

impl Step for Hart {
    /// The caches of the hart are in order.
    open spec fn can_step(&self) -> bool {
        self.wf()
    }

    /// Carries out the instruction at the program counter.
    fn step(&mut self, bus: &mut Bus, cells: &mut Reservations) -> (c: Conclusion)
        ensures
            machine(final(self), final(bus), final(cells)) == machine(old(self), old(bus), old(cells)).step().machine,
            c == machine(old(self), old(bus), old(cells)).step().conclusion,
    {
        let pc: u32 = self.pc;
        match self.mmu.load_instruction(bus, pc) {
            Err(e) => Conclusion::Exception(fetch_fault(e)),
            Ok(inst) => {
                let c = self.execute(inst, bus, cells);
                if c == Conclusion::Proceed {
                    self.pc = self.pc.wrapping_add(4);
                }
                c
            },
        }
    }
}

} // verus!
