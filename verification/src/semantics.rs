//! What each operation does, stated over the model of the machine.

use vstd::prelude::*;
use crate::cpu::{decode_spec, fetch_spec, write_reg, CpuState, CpuView};
use crate::error::EmulatorError;
use crate::instruction::{format_of, lemma_decode_well_formed, Instruction};
use crate::mmio_device::DeviceModel;
use crate::ram::{read16, read32, read8, route, store8_to_device, write16, write32, write8};
use crate::step_log::{CpuStateLog, CpuStepView, RamWrite};
use crate::word::{
    byte_of,
    lemma_wrap_parity,
    set_less_than,
    set_less_than_unsigned,
    shift_right_arithmetic,
    sign_extend_byte,
    sign_extend_half,
    wrap,
};

verus! {

/// The width of a memory access.
#[derive(Debug, Clone, Copy, PartialEq, Eq, Structural)]
pub enum Width {
    Byte,
    Half,
    Word,
}

impl Width {
    /// The number of bytes accessed.
    pub open spec fn bytes(self) -> int {
        match self {
            Width::Byte => 1,
            Width::Half => 2,
            Width::Word => 4,
        }
    }

    /// The number of bytes accessed.
    pub fn size(&self) -> (n: u32)
        ensures
            n == self.bytes(),
    {
        match self {
            Width::Byte => 1,
            Width::Half => 2,
            Width::Word => 4,
        }
    }
}

/// What an operation asks of the machine, given the registers and the
/// program counter before it.
#[derive(Debug, Clone, Copy, PartialEq, Eq, Structural)]
pub enum Action {
    /// Write `value` to register `rd` and go on at `next_pc`.
    Write { rd: usize, value: u32, next_pc: u32 },
    /// Go on at `next_pc`.
    Jump { next_pc: u32 },
    /// Load from `addr` into register `rd`, widened by sign or by zeros,
    /// and go on at the next word.
    Load { rd: usize, addr: u32, width: Width, signed: bool },
    /// Store the low bytes of `value` to `addr` and go on at the next word.
    Store { addr: u32, width: Width, value: u32 },
    /// Stop with an error.
    Trap { error: EmulatorError },
}

/// The address of the word after the one at `pc`.
pub open spec fn next_word(pc: u32) -> u32 {
    wrap(pc + 4)
}

/// The target of a `JALR`: `base + offset` with its lowest bit cleared.
pub open spec fn jalr_target(base: u32, offset: int) -> u32 {
    let sum = wrap(base + offset);
    (sum - sum % 2) as u32
}

/// The program counter after a branch.
pub open spec fn branch_target(taken: bool, pc: u32, offset: int) -> u32 {
    if taken {
        wrap(pc + offset)
    } else {
        next_word(pc)
    }
}

impl Instruction {
    /// Every register that the operation names exists.
    pub open spec fn registers_valid(self) -> bool {
        match self {
            Instruction::Add { rd, rs1, rs2 }
            | Instruction::Sub { rd, rs1, rs2 }
            | Instruction::And { rd, rs1, rs2 }
            | Instruction::Or { rd, rs1, rs2 }
            | Instruction::Xor { rd, rs1, rs2 }
            | Instruction::Sll { rd, rs1, rs2 }
            | Instruction::Srl { rd, rs1, rs2 }
            | Instruction::Sra { rd, rs1, rs2 }
            | Instruction::Slt { rd, rs1, rs2 }
            | Instruction::Sltu { rd, rs1, rs2 } => rd < 32 && rs1 < 32 && rs2 < 32,
            Instruction::Addi { rd, rs1, .. }
            | Instruction::Andi { rd, rs1, .. }
            | Instruction::Ori { rd, rs1, .. }
            | Instruction::Xori { rd, rs1, .. }
            | Instruction::Slli { rd, rs1, .. }
            | Instruction::Srli { rd, rs1, .. }
            | Instruction::Srai { rd, rs1, .. }
            | Instruction::Slti { rd, rs1, .. }
            | Instruction::Sltiu { rd, rs1, .. }
            | Instruction::Lb { rd, rs1, .. }
            | Instruction::Lbu { rd, rs1, .. }
            | Instruction::Lh { rd, rs1, .. }
            | Instruction::Lhu { rd, rs1, .. }
            | Instruction::Lw { rd, rs1, .. }
            | Instruction::Jalr { rd, rs1, .. } => rd < 32 && rs1 < 32,
            Instruction::Sb { rs1, rs2, .. }
            | Instruction::Sh { rs1, rs2, .. }
            | Instruction::Sw { rs1, rs2, .. }
            | Instruction::Beq { rs1, rs2, .. }
            | Instruction::Bne { rs1, rs2, .. }
            | Instruction::Blt { rs1, rs2, .. }
            | Instruction::Bge { rs1, rs2, .. }
            | Instruction::Bltu { rs1, rs2, .. }
            | Instruction::Bgeu { rs1, rs2, .. } => rs1 < 32 && rs2 < 32,
            Instruction::Jal { rd, .. }
            | Instruction::Lui { rd, .. }
            | Instruction::Auipc { rd, .. } => rd < 32,
            Instruction::Fence { .. } | Instruction::Ecall | Instruction::Ebreak => true,
        }
    }

    /// Whether every register that the operation names exists.
    pub fn registers_in_range(&self) -> (valid: bool)
        ensures
            valid == self.registers_valid(),
    {
        match *self {
            Instruction::Add { rd, rs1, rs2 }
            | Instruction::Sub { rd, rs1, rs2 }
            | Instruction::And { rd, rs1, rs2 }
            | Instruction::Or { rd, rs1, rs2 }
            | Instruction::Xor { rd, rs1, rs2 }
            | Instruction::Sll { rd, rs1, rs2 }
            | Instruction::Srl { rd, rs1, rs2 }
            | Instruction::Sra { rd, rs1, rs2 }
            | Instruction::Slt { rd, rs1, rs2 }
            | Instruction::Sltu { rd, rs1, rs2 } => rd < 32 && rs1 < 32 && rs2 < 32,
            Instruction::Addi { rd, rs1, .. }
            | Instruction::Andi { rd, rs1, .. }
            | Instruction::Ori { rd, rs1, .. }
            | Instruction::Xori { rd, rs1, .. }
            | Instruction::Slli { rd, rs1, .. }
            | Instruction::Srli { rd, rs1, .. }
            | Instruction::Srai { rd, rs1, .. }
            | Instruction::Slti { rd, rs1, .. }
            | Instruction::Sltiu { rd, rs1, .. }
            | Instruction::Lb { rd, rs1, .. }
            | Instruction::Lbu { rd, rs1, .. }
            | Instruction::Lh { rd, rs1, .. }
            | Instruction::Lhu { rd, rs1, .. }
            | Instruction::Lw { rd, rs1, .. }
            | Instruction::Jalr { rd, rs1, .. } => rd < 32 && rs1 < 32,
            Instruction::Sb { rs1, rs2, .. }
            | Instruction::Sh { rs1, rs2, .. }
            | Instruction::Sw { rs1, rs2, .. }
            | Instruction::Beq { rs1, rs2, .. }
            | Instruction::Bne { rs1, rs2, .. }
            | Instruction::Blt { rs1, rs2, .. }
            | Instruction::Bge { rs1, rs2, .. }
            | Instruction::Bltu { rs1, rs2, .. }
            | Instruction::Bgeu { rs1, rs2, .. } => rs1 < 32 && rs2 < 32,
            Instruction::Jal { rd, .. }
            | Instruction::Lui { rd, .. }
            | Instruction::Auipc { rd, .. } => rd < 32,
            Instruction::Fence { .. } | Instruction::Ecall | Instruction::Ebreak => true,
        }
    }

    /// What the operation asks of the machine.  `x` is the register file
    /// and `pc` the program counter before the operation.
    pub open spec fn action(self, x: Seq<u32>, pc: u32) -> Action {
        let next_pc = next_word(pc);
        match self {
            Instruction::Add { rd, rs1, rs2 } => Action::Write {
                rd,
                value: wrap(x[rs1 as int] + x[rs2 as int]),
                next_pc,
            },
            Instruction::Addi { rd, rs1, imm } => Action::Write {
                rd,
                value: wrap(x[rs1 as int] + imm),
                next_pc,
            },
            Instruction::Sub { rd, rs1, rs2 } => Action::Write {
                rd,
                value: wrap(x[rs1 as int] - x[rs2 as int]),
                next_pc,
            },
            Instruction::And { rd, rs1, rs2 } => Action::Write {
                rd,
                value: x[rs1 as int] & x[rs2 as int],
                next_pc,
            },
            Instruction::Andi { rd, rs1, imm } => Action::Write {
                rd,
                value: x[rs1 as int] & wrap(imm as int),
                next_pc,
            },
            Instruction::Or { rd, rs1, rs2 } => Action::Write {
                rd,
                value: x[rs1 as int] | x[rs2 as int],
                next_pc,
            },
            Instruction::Ori { rd, rs1, imm } => Action::Write {
                rd,
                value: x[rs1 as int] | wrap(imm as int),
                next_pc,
            },
            Instruction::Xor { rd, rs1, rs2 } => Action::Write {
                rd,
                value: x[rs1 as int] ^ x[rs2 as int],
                next_pc,
            },
            Instruction::Xori { rd, rs1, imm } => Action::Write {
                rd,
                value: x[rs1 as int] ^ wrap(imm as int),
                next_pc,
            },
            Instruction::Sll { rd, rs1, rs2 } => Action::Write {
                rd,
                value: x[rs1 as int] << (x[rs2 as int] % 32),
                next_pc,
            },
            Instruction::Slli { rd, rs1, shamt } => Action::Write {
                rd,
                value: x[rs1 as int] << ((shamt % 32) as u32),
                next_pc,
            },
            Instruction::Srl { rd, rs1, rs2 } => Action::Write {
                rd,
                value: x[rs1 as int] >> (x[rs2 as int] % 32),
                next_pc,
            },
            Instruction::Srli { rd, rs1, shamt } => Action::Write {
                rd,
                value: x[rs1 as int] >> ((shamt % 32) as u32),
                next_pc,
            },
            Instruction::Sra { rd, rs1, rs2 } => Action::Write {
                rd,
                value: shift_right_arithmetic(x[rs1 as int], x[rs2 as int] % 32),
                next_pc,
            },
            Instruction::Srai { rd, rs1, shamt } => Action::Write {
                rd,
                value: shift_right_arithmetic(x[rs1 as int], (shamt % 32) as u32),
                next_pc,
            },
            Instruction::Slt { rd, rs1, rs2 } => Action::Write {
                rd,
                value: set_less_than(x[rs1 as int], x[rs2 as int]),
                next_pc,
            },
            Instruction::Slti { rd, rs1, imm } => Action::Write {
                rd,
                value: set_less_than(x[rs1 as int], wrap(imm as int)),
                next_pc,
            },
            Instruction::Sltu { rd, rs1, rs2 } => Action::Write {
                rd,
                value: set_less_than_unsigned(x[rs1 as int], x[rs2 as int]),
                next_pc,
            },
            Instruction::Sltiu { rd, rs1, imm } => Action::Write {
                rd,
                value: set_less_than_unsigned(x[rs1 as int], imm as u32),
                next_pc,
            },
            Instruction::Lb { rd, rs1, offset } => Action::Load {
                rd,
                addr: wrap(x[rs1 as int] + offset),
                width: Width::Byte,
                signed: true,
            },
            Instruction::Lbu { rd, rs1, offset } => Action::Load {
                rd,
                addr: wrap(x[rs1 as int] + offset),
                width: Width::Byte,
                signed: false,
            },
            Instruction::Lh { rd, rs1, offset } => Action::Load {
                rd,
                addr: wrap(x[rs1 as int] + offset),
                width: Width::Half,
                signed: true,
            },
            Instruction::Lhu { rd, rs1, offset } => Action::Load {
                rd,
                addr: wrap(x[rs1 as int] + offset),
                width: Width::Half,
                signed: false,
            },
            Instruction::Lw { rd, rs1, offset } => Action::Load {
                rd,
                addr: wrap(x[rs1 as int] + offset),
                width: Width::Word,
                signed: false,
            },
            Instruction::Sb { rs1, rs2, offset } => Action::Store {
                addr: wrap(x[rs1 as int] + offset),
                width: Width::Byte,
                value: x[rs2 as int],
            },
            Instruction::Sh { rs1, rs2, offset } => Action::Store {
                addr: wrap(x[rs1 as int] + offset),
                width: Width::Half,
                value: x[rs2 as int],
            },
            Instruction::Sw { rs1, rs2, offset } => Action::Store {
                addr: wrap(x[rs1 as int] + offset),
                width: Width::Word,
                value: x[rs2 as int],
            },
            Instruction::Jal { rd, offset } => Action::Write {
                rd,
                value: next_pc,
                next_pc: wrap(pc + offset),
            },
            Instruction::Jalr { rd, rs1, offset } => Action::Write {
                rd,
                value: next_pc,
                next_pc: jalr_target(x[rs1 as int], offset as int),
            },
            Instruction::Beq { rs1, rs2, offset } => Action::Jump {
                next_pc: branch_target(x[rs1 as int] == x[rs2 as int], pc, offset as int),
            },
            Instruction::Bne { rs1, rs2, offset } => Action::Jump {
                next_pc: branch_target(x[rs1 as int] != x[rs2 as int], pc, offset as int),
            },
            Instruction::Blt { rs1, rs2, offset } => Action::Jump {
                next_pc: branch_target(
                    set_less_than(x[rs1 as int], x[rs2 as int]) == 1,
                    pc,
                    offset as int,
                ),
            },
            Instruction::Bge { rs1, rs2, offset } => Action::Jump {
                next_pc: branch_target(
                    set_less_than(x[rs1 as int], x[rs2 as int]) == 0,
                    pc,
                    offset as int,
                ),
            },
            Instruction::Bltu { rs1, rs2, offset } => Action::Jump {
                next_pc: branch_target(x[rs1 as int] < x[rs2 as int], pc, offset as int),
            },
            Instruction::Bgeu { rs1, rs2, offset } => Action::Jump {
                next_pc: branch_target(x[rs1 as int] >= x[rs2 as int], pc, offset as int),
            },
            Instruction::Lui { rd, imm } => Action::Write { rd, value: imm, next_pc },
            Instruction::Auipc { rd, imm } => Action::Write { rd, value: wrap(pc + imm), next_pc },
            Instruction::Fence { pred, succ } => Action::Trap {
                error: EmulatorError::Fence { pred, succ },
            },
            Instruction::Ecall => Action::Trap { error: EmulatorError::Ecall },
            Instruction::Ebreak => Action::Trap { error: EmulatorError::Ebreak },
        }
    }
}

/// Whether an access of `width` at `addr` can be carried out: a device
/// claims `addr`, or all its bytes lie in RAM and in the 32-bit address
/// space.
pub open spec fn accessible(mem: Seq<u8>, devices: Seq<DeviceModel>, addr: u32, width: Width) -> bool {
    route(devices, addr) is Some || (addr + width.bytes() <= mem.len() && addr + width.bytes()
        <= 0x1_0000_0000)
}

/// The word that a load brings: 0 from a device; from RAM the bytes at
/// `addr`, lowest first, widened by their sign or by zeros.
pub open spec fn loaded_value(
    mem: Seq<u8>,
    devices: Seq<DeviceModel>,
    addr: u32,
    width: Width,
    signed: bool,
) -> u32 {
    if route(devices, addr) is Some {
        0
    } else {
        match width {
            Width::Byte => if signed {
                sign_extend_byte(read8(mem, addr as int))
            } else {
                read8(mem, addr as int) as u32
            },
            Width::Half => if signed {
                sign_extend_half(read16(mem, addr as int))
            } else {
                read16(mem, addr as int) as u32
            },
            Width::Word => read32(mem, addr as int),
        }
    }
}

/// RAM after a store that goes to RAM: the low bytes of `value` stand at
/// `addr`, lowest first.
pub open spec fn stored_ram(mem: Seq<u8>, addr: u32, width: Width, value: u32) -> Seq<u8> {
    match width {
        Width::Byte => write8(mem, addr as int, (value % 0x100) as u8),
        Width::Half => write16(mem, addr as int, (value % 0x1_0000) as u16),
        Width::Word => write32(mem, addr as int, value),
    }
}

/// The devices after a store that device `i` claims: a byte reaches the
/// device, a wider store is ignored.
pub open spec fn stored_devices(
    devices: Seq<DeviceModel>,
    i: int,
    addr: u32,
    width: Width,
    value: u32,
) -> Seq<DeviceModel> {
    match width {
        Width::Byte => store8_to_device(devices, i, addr, (value % 0x100) as u8),
        _ => devices,
    }
}

/// The trace of a store that goes to RAM: one entry for each byte written,
/// in the order of the addresses.
pub open spec fn store_trace(addr: u32, width: Width, value: u32) -> Seq<RamWrite> {
    Seq::new(
        width.bytes() as nat,
        |k: int| (RamWrite { addr: (addr + k) as u32, value: byte_of(value, k) }),
    )
}

/// The machine after the execute stage, and what the stage returns.
pub struct Outcome {
    pub cpu: CpuView,
    pub ram: Seq<u8>,
    pub devices: Seq<DeviceModel>,
    /// The bytes written to RAM, or the error that stopped the stage.
    pub result: Result<Seq<RamWrite>, EmulatorError>,
}

/// What the execute stage does.
///
/// The stage is entered from `Decode` only; asked for in another state it
/// fails with `Protocol` and changes nothing.  Once entered, it fails with
/// `RegisterIndex` for an operation that names a register that does not
/// exist, with the error of the trap for `FENCE`, `ECALL` and `EBREAK`, and
/// with `MemoryOutOfBounds` for an access that cannot be carried out; a
/// stage that fails changes nothing but the state of the CPU.  Otherwise the
/// register is written first, then the program counter, then memory.  A
/// store that a device claims leaves no trace.
pub open spec fn execute_spec(
    cpu: CpuView,
    instruction: Instruction,
    ram: Seq<u8>,
    devices: Seq<DeviceModel>,
) -> Outcome {
    if cpu.state != CpuState::Decode {
        Outcome {
            cpu,
            ram,
            devices,
            result: Err(EmulatorError::Protocol { requested: CpuState::Execute }),
        }
    } else {
        let entered = CpuView { state: CpuState::Execute, ..cpu };
        if !instruction.registers_valid() {
            Outcome { cpu: entered, ram, devices, result: Err(EmulatorError::RegisterIndex) }
        } else {
            match instruction.action(cpu.regs, cpu.pc) {
                Action::Trap { error } => Outcome { cpu: entered, ram, devices, result: Err(error) },
                Action::Write { rd, value, next_pc } => Outcome {
                    cpu: CpuView {
                        regs: write_reg(cpu.regs, rd as int, value),
                        pc: next_pc,
                        ..entered
                    },
                    ram,
                    devices,
                    result: Ok(Seq::empty()),
                },
                Action::Jump { next_pc } => Outcome {
                    cpu: CpuView { pc: next_pc, ..entered },
                    ram,
                    devices,
                    result: Ok(Seq::empty()),
                },
                Action::Load { rd, addr, width, signed } => if !accessible(
                    ram,
                    devices,
                    addr,
                    width,
                ) {
                    Outcome {
                        cpu: entered,
                        ram,
                        devices,
                        result: Err(EmulatorError::MemoryOutOfBounds),
                    }
                } else {
                    Outcome {
                        cpu: CpuView {
                            regs: write_reg(
                                cpu.regs,
                                rd as int,
                                loaded_value(ram, devices, addr, width, signed),
                            ),
                            pc: next_word(cpu.pc),
                            ..entered
                        },
                        ram,
                        devices,
                        result: Ok(Seq::empty()),
                    }
                },
                Action::Store { addr, width, value } => if !accessible(ram, devices, addr, width) {
                    Outcome {
                        cpu: entered,
                        ram,
                        devices,
                        result: Err(EmulatorError::MemoryOutOfBounds),
                    }
                } else {
                    let stepped = CpuView { pc: next_word(cpu.pc), ..entered };
                    match route(devices, addr) {
                        Some(i) => Outcome {
                            cpu: stepped,
                            ram,
                            devices: stored_devices(devices, i, addr, width, value),
                            result: Ok(Seq::empty()),
                        },
                        None => Outcome {
                            cpu: stepped,
                            ram: stored_ram(ram, addr, width, value),
                            devices,
                            result: Ok(store_trace(addr, width, value)),
                        },
                    }
                },
            }
        }
    }
}

/// RAM after the bytes of a trace were written to it, in the order of the
/// trace.
pub open spec fn replay(ram: Seq<u8>, writes: Seq<RamWrite>) -> Seq<u8>
    decreases writes.len(),
{
    if writes.len() == 0 {
        ram
    } else {
        replay(ram, writes.drop_last()).update(writes.last().addr as int, writes.last().value)
    }
}

/// The trace of a store holds what the store did to RAM: written to RAM
/// as it was before, its bytes give RAM as it is after.
pub proof fn lemma_store_trace_replays(ram: Seq<u8>, addr: u32, width: Width, value: u32)
    requires
        addr + width.bytes() <= ram.len(),
        addr + width.bytes() <= 0x1_0000_0000,
    ensures
        replay(ram, store_trace(addr, width, value)) == stored_ram(ram, addr, width, value),
{
    let trace = store_trace(addr, width, value);
    assert((((value % 0x1_0000) as u16) % 0x100) as u8 == (value % 0x100) as u8 && (((value
        % 0x1_0000) as u16) / 0x100) as u8 == (value / 0x100 % 0x100) as u8 && (value / 0x100_0000
        % 0x100) as u8 == (value / 0x100_0000) as u8) by (bit_vector);
    let one = trace.subrange(0, 1);
    assert(one.drop_last() =~= Seq::<RamWrite>::empty());
    assert(replay(ram, one.drop_last()) == ram);
    assert(replay(ram, one) == ram.update(addr as int, byte_of(value, 0)));
    match width {
        Width::Byte => {
            assert(trace =~= one);
        },
        Width::Half => {
            assert(trace.drop_last() =~= one);
            assert(replay(ram, trace) =~= stored_ram(ram, addr, width, value));
        },
        Width::Word => {
            let two = trace.subrange(0, 2);
            let three = trace.subrange(0, 3);
            assert(two.drop_last() =~= one);
            assert(three.drop_last() =~= two);
            assert(trace.drop_last() =~= three);
            assert(replay(ram, two) == replay(ram, one).update(addr + 1, byte_of(value, 1)));
            assert(replay(ram, three) == replay(ram, two).update(addr + 2, byte_of(value, 2)));
            assert(replay(ram, trace) == replay(ram, three).update(addr + 3, byte_of(value, 3)));
            assert(replay(ram, trace) =~= stored_ram(ram, addr, width, value));
        },
    }
}

/// The trace of the execute stage holds what the stage did to RAM: written
/// to RAM as it was before the stage, its bytes give RAM as it is after.  A
/// stage that fails leaves RAM as it was.
pub proof fn lemma_execute_trace_replays(
    cpu: CpuView,
    instruction: Instruction,
    ram: Seq<u8>,
    devices: Seq<DeviceModel>,
)
    ensures
        match execute_spec(cpu, instruction, ram, devices).result {
            Ok(writes) => replay(ram, writes) == execute_spec(cpu, instruction, ram, devices).ram,
            Err(_) => execute_spec(cpu, instruction, ram, devices).ram == ram,
        },
{
    if cpu.state == CpuState::Decode && instruction.registers_valid() {
        match instruction.action(cpu.regs, cpu.pc) {
            Action::Store { addr, width, value } => {
                if accessible(ram, devices, addr, width) && route(devices, addr) is None {
                    lemma_store_trace_replays(ram, addr, width, value);
                }
            },
            _ => {},
        }
    }
}

/// The record of a step holds what the step did to RAM: written to RAM as
/// it was before the step, the bytes of its trace give RAM as it is after.
/// A step that fails leaves RAM as it was.
pub proof fn lemma_step_trace_replays(cpu: CpuView, ram: Seq<u8>, devices: Seq<DeviceModel>)
    ensures
        match step_spec(cpu, ram, devices).result {
            Ok(cpu_step) => replay(ram, cpu_step.ram_writes) == step_spec(cpu, ram, devices).ram,
            Err(_) => step_spec(cpu, ram, devices).ram == ram,
        },
{
    let (fetched, word) = fetch_spec(cpu, ram);
    if cpu.step != usize::MAX && word is Ok {
        let (decoded, instruction) = decode_spec(fetched, word->Ok_0);
        if instruction is Ok {
            lemma_execute_trace_replays(decoded, instruction->Ok_0, ram, devices);
        }
    }
}

/// The machine after a step, and what the step returns.
pub struct StepOutcome {
    pub cpu: CpuView,
    pub ram: Seq<u8>,
    pub devices: Seq<DeviceModel>,
    /// The record of the step, or the error that stopped it.
    pub result: Result<CpuStepView, EmulatorError>,
}

/// What one step does: fetch, decode, execute.
///
/// A step that the counter cannot count fails with `StepLimit` and changes
/// nothing.  A stage that fails ends the step with its error, and the
/// machine stays as that stage left it.  A step that succeeds is recorded
/// under the number of steps completed before it, with the CPU as the
/// execute stage left it, and is then counted.
pub open spec fn step_spec(cpu: CpuView, ram: Seq<u8>, devices: Seq<DeviceModel>) -> StepOutcome {
    if cpu.step == usize::MAX {
        StepOutcome { cpu, ram, devices, result: Err(EmulatorError::StepLimit) }
    } else {
        let (fetched, word) = fetch_spec(cpu, ram);
        match word {
            Err(error) => StepOutcome { cpu: fetched, ram, devices, result: Err(error) },
            Ok(word) => {
                let (decoded, instruction) = decode_spec(fetched, word);
                match instruction {
                    Err(error) => StepOutcome { cpu: decoded, ram, devices, result: Err(error) },
                    Ok(instruction) => {
                        let executed = execute_spec(decoded, instruction, ram, devices);
                        match executed.result {
                            Err(error) => StepOutcome {
                                cpu: executed.cpu,
                                ram: executed.ram,
                                devices: executed.devices,
                                result: Err(error),
                            },
                            Ok(ram_writes) => StepOutcome {
                                cpu: CpuView { step: (cpu.step + 1) as usize, ..executed.cpu },
                                ram: executed.ram,
                                devices: executed.devices,
                                result: Ok(
                                    CpuStepView {
                                        step: cpu.step,
                                        fetched_instruction: word,
                                        decoded_instruction: instruction,
                                        cpu_state: CpuStateLog::of(executed.cpu),
                                        ram_writes,
                                    },
                                ),
                            },
                        }
                    },
                }
            },
        }
    }
}

/// Register 0 is hardwired: the execute stage leaves it as it was, whatever
/// the operation.
pub proof fn lemma_execute_keeps_x0(
    cpu: CpuView,
    instruction: Instruction,
    ram: Seq<u8>,
    devices: Seq<DeviceModel>,
)
    requires
        cpu.regs.len() == 32,
    ensures
        execute_spec(cpu, instruction, ram, devices).cpu.regs.len() == 32,
        execute_spec(cpu, instruction, ram, devices).cpu.regs[0] == cpu.regs[0],
        execute_spec(cpu, instruction, ram, devices).cpu.step == cpu.step,
{
}

/// Where an operation sends the program counter, if it is well formed and
/// the program counter is even: to an even address.
pub proof fn lemma_action_keeps_pc_even(instruction: Instruction, x: Seq<u32>, pc: u32)
    requires
        instruction.well_formed(),
        pc % 2 == 0,
    ensures
        next_word(pc) % 2 == 0,
        match instruction.action(x, pc) {
            Action::Write { next_pc, .. } => next_pc % 2 == 0,
            Action::Jump { next_pc } => next_pc % 2 == 0,
            _ => true,
        },
{
    lemma_wrap_parity(pc + 4);
    let next = next_word(pc);
    assert(next % 2 == 0);
    match instruction {
        Instruction::Jal { offset, .. } => {
            lemma_wrap_parity(pc + offset);
        },
        Instruction::Jalr { rs1, offset, .. } => {
            let sum = wrap(x[rs1 as int] + offset);
            assert((sum - sum % 2) % 2 == 0);
        },
        Instruction::Beq { offset, .. }
        | Instruction::Bne { offset, .. }
        | Instruction::Blt { offset, .. }
        | Instruction::Bge { offset, .. }
        | Instruction::Bltu { offset, .. }
        | Instruction::Bgeu { offset, .. } => {
            lemma_wrap_parity(pc + offset);
            assert(branch_target(true, pc, offset as int) % 2 == 0);
            assert(branch_target(false, pc, offset as int) % 2 == 0);
        },
        _ => {
            assert(match instruction.action(x, pc) {
                Action::Write { next_pc, .. } => next_pc == next,
                Action::Jump { next_pc } => false,
                _ => true,
            });
        },
    }
}

/// An even program counter stays even: the execute stage of a well-formed
/// operation takes the program counter from an even address to an even
/// address.
pub proof fn lemma_execute_keeps_pc_even(
    cpu: CpuView,
    instruction: Instruction,
    ram: Seq<u8>,
    devices: Seq<DeviceModel>,
)
    requires
        instruction.well_formed(),
        cpu.pc % 2 == 0,
    ensures
        execute_spec(cpu, instruction, ram, devices).cpu.pc % 2 == 0,
{
    lemma_action_keeps_pc_even(instruction, cpu.regs, cpu.pc);
}

/// Register 0 is hardwired: a step leaves it as it was, and a step that is
/// recorded is recorded with this value of it.
pub proof fn lemma_step_keeps_x0(cpu: CpuView, ram: Seq<u8>, devices: Seq<DeviceModel>)
    requires
        cpu.regs.len() == 32,
    ensures
        step_spec(cpu, ram, devices).cpu.regs.len() == 32,
        step_spec(cpu, ram, devices).cpu.regs[0] == cpu.regs[0],
        step_spec(cpu, ram, devices).result is Ok ==> step_spec(
            cpu,
            ram,
            devices,
        ).result->Ok_0.cpu_state.zero == cpu.regs[0],
{
    let (fetched, word) = fetch_spec(cpu, ram);
    if cpu.step != usize::MAX && word is Ok {
        let (decoded, instruction) = decode_spec(fetched, word->Ok_0);
        if instruction is Ok {
            lemma_execute_keeps_x0(decoded, instruction->Ok_0, ram, devices);
        }
    }
}

/// An even program counter stays even: a step takes the program counter
/// from an even address to an even address, and a step that is recorded is
/// recorded with an even program counter.
pub proof fn lemma_step_keeps_pc_even(cpu: CpuView, ram: Seq<u8>, devices: Seq<DeviceModel>)
    requires
        cpu.pc % 2 == 0,
    ensures
        step_spec(cpu, ram, devices).cpu.pc % 2 == 0,
        step_spec(cpu, ram, devices).result is Ok ==> step_spec(
            cpu,
            ram,
            devices,
        ).result->Ok_0.cpu_state.pc % 2 == 0,
{
    let (fetched, word) = fetch_spec(cpu, ram);
    if cpu.step != usize::MAX && word is Ok {
        let (decoded, instruction) = decode_spec(fetched, word->Ok_0);
        if instruction is Ok {
            match format_of(word->Ok_0) {
                Some(format) => lemma_decode_well_formed(format),
                None => {},
            }
            lemma_execute_keeps_pc_even(decoded, instruction->Ok_0, ram, devices);
        }
    }
}

/// A step that succeeds is recorded under the number of steps completed
/// before it and raises that number by one; a step that fails leaves the
/// number as it was.
pub proof fn lemma_step_counts(cpu: CpuView, ram: Seq<u8>, devices: Seq<DeviceModel>)
    ensures
        match step_spec(cpu, ram, devices).result {
            Ok(cpu_step) => cpu_step.step == cpu.step && step_spec(cpu, ram, devices).cpu.step
                == cpu.step + 1,
            Err(_) => step_spec(cpu, ram, devices).cpu.step == cpu.step,
        },
{
}

} // verus!
