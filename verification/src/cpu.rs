//! The processor: the register file, the program counter and the three
//! stages of a step.

use vstd::prelude::*;
use crate::error::EmulatorError;
use crate::instruction::{decode_word, Instruction, InstructionFormat};
use crate::mmio_device::{device_models, MmioDevice};
use crate::ram::{read32, Ram};
use crate::register::{ProgramCounter, Register};
use crate::semantics::{
    branch_target,
    execute_spec,
    lemma_step_counts,
    lemma_step_keeps_pc_even,
    lemma_step_keeps_x0,
    step_spec,
    store_trace,
    Action,
    Width,
};
use crate::step_log::{CpuStateLog, CpuStep, CpuStepView, RamWrite};
use crate::word::{
    arithmetic_shift,
    byte_at,
    clear_low_bit,
    extend_byte,
    extend_half,
    immediate_word,
    less_than,
    less_than_unsigned,
    low_byte,
    low_half,
    offset_address,
    shift_amount,
    wrapping_difference,
    wrapping_sum,
};

verus! {

/// The stage that the CPU has last entered.  A step goes from `Reset` or
/// `Execute` to `Fetch`, from `Fetch` to `Decode` and from `Decode` to
/// `Execute`; a stage asked for out of this order fails.
#[derive(Debug, Clone, Copy, PartialEq, Eq, Structural)]
pub enum CpuState {
    Reset,
    Fetch,
    Decode,
    Execute,
}

/// The processor.
#[derive(Debug)]
pub struct Cpu {
    pub x_regs: [Register; 32],
    pub pc: ProgramCounter,
    pub state: CpuState,
    pub step: usize,
}

/// The processor as the contracts see it.
pub struct CpuView {
    /// The 32 words of the register file.
    pub regs: Seq<u32>,
    pub pc: u32,
    pub state: CpuState,
    /// The number of steps completed.
    pub step: usize,
}

impl View for Cpu {
    type V = CpuView;

    open spec fn view(&self) -> CpuView {
        CpuView {
            regs: Seq::new(32, |i: int| self.x_regs@[i].value()),
            pc: self.pc.value(),
            state: self.state,
            step: self.step,
        }
    }
}

/// The register file after `value` was written to register `index`:
/// register 0 takes no value.
pub open spec fn write_reg(regs: Seq<u32>, index: int, value: u32) -> Seq<u32> {
    if index == 0 {
        regs
    } else {
        regs.update(index, value)
    }
}

/// The CPU after reset: all registers and the program counter zero, no step
/// counted.
pub open spec fn reset_view() -> CpuView {
    CpuView { regs: Seq::new(32, |i: int| 0u32), pc: 0, state: CpuState::Reset, step: 0 }
}

/// What the fetch stage does: the CPU after it, and the word fetched.  The
/// stage is entered from `Reset` or `Execute` only, and the program counter
/// has to address a whole word of RAM.
pub open spec fn fetch_spec(cpu: CpuView, ram: Seq<u8>) -> (CpuView, Result<u32, EmulatorError>) {
    if cpu.state != CpuState::Reset && cpu.state != CpuState::Execute {
        (cpu, Err(EmulatorError::Protocol { requested: CpuState::Fetch }))
    } else {
        let entered = CpuView { state: CpuState::Fetch, ..cpu };
        if cpu.pc + 4 > ram.len() {
            (entered, Err(EmulatorError::PcOutOfBounds))
        } else {
            (entered, Ok(read32(ram, cpu.pc as int)))
        }
    }
}

/// What the decode stage does: the CPU after it, and the operation that the
/// word stands for.  The stage is entered from `Fetch` only.
pub open spec fn decode_spec(cpu: CpuView, word: u32) -> (
    CpuView,
    Result<Instruction, EmulatorError>,
) {
    if cpu.state != CpuState::Fetch {
        (cpu, Err(EmulatorError::Protocol { requested: CpuState::Decode }))
    } else {
        let entered = CpuView { state: CpuState::Decode, ..cpu };
        match decode_word(word) {
            Some(instruction) => (entered, Ok(instruction)),
            None => (entered, Err(EmulatorError::Decode)),
        }
    }
}

/// A register file of zeros.
fn zeroed_registers() -> (regs: [Register; 32])
    ensures
        forall|i: int| 0 <= i < 32 ==> (#[trigger] regs@[i]).value() == 0,
{
    let zero = Register::default();
    [
        zero, zero, zero, zero, zero, zero, zero, zero,
        zero, zero, zero, zero, zero, zero, zero, zero,
        zero, zero, zero, zero, zero, zero, zero, zero,
        zero, zero, zero, zero, zero, zero, zero, zero,
    ]
}

impl Default for Cpu {
    fn default() -> (cpu: Self)
        ensures
            cpu@ == reset_view(),
    {
        let cpu = Cpu {
            x_regs: zeroed_registers(),
            pc: ProgramCounter::default(),
            state: CpuState::Reset,
            step: 0,
        };
        assert(cpu@.regs =~= reset_view().regs);
        cpu
    }
}

impl Cpu {
    /// Zeros the registers, the program counter and the step counter.
    pub fn reset(&mut self)
        ensures
            final(self)@ == reset_view(),
    {
        self.x_regs = zeroed_registers();
        self.pc = ProgramCounter::default();
        self.state = CpuState::Reset;
        self.step = 0;
        assert(self@.regs =~= reset_view().regs);
    }

    /// One step: fetches the word at the program counter, decodes it,
    /// executes it and counts the step.  Returns the record of the step.
    pub fn fetch_decode_execute(
        &mut self,
        ram: &mut Ram,
        mmio_devices: &mut Vec<MmioDevice>,
    ) -> (res: Result<CpuStep, EmulatorError>)
        ensures
            final(self)@ == step_spec(old(self)@, old(ram)@, device_models(old(mmio_devices)@)).cpu,
            final(ram)@ == step_spec(old(self)@, old(ram)@, device_models(old(mmio_devices)@)).ram,
            device_models(final(mmio_devices)@) == step_spec(
                old(self)@,
                old(ram)@,
                device_models(old(mmio_devices)@),
            ).devices,
            final(mmio_devices)@.len() == old(mmio_devices)@.len(),
            (match res {
                Ok(cpu_step) => Ok::<CpuStepView, EmulatorError>(cpu_step@),
                Err(error) => Err(error),
            }) == step_spec(old(self)@, old(ram)@, device_models(old(mmio_devices)@)).result,
            final(self)@.regs[0] == old(self)@.regs[0],
            old(self)@.pc % 2 == 0 ==> final(self)@.pc % 2 == 0,
            match res {
                Ok(cpu_step) => cpu_step.step == old(self)@.step && final(self)@.step == old(self)@.step + 1,
                Err(_) => final(self)@.step == old(self)@.step,
            },
    {
        proof {
            let devices = device_models(mmio_devices@);
            lemma_step_keeps_x0(self@, ram@, devices);
            lemma_step_counts(self@, ram@, devices);
            if self@.pc % 2 == 0 {
                lemma_step_keeps_pc_even(self@, ram@, devices);
            }
        }
        if self.step == usize::MAX {
            return Err(EmulatorError::StepLimit);
        }
        let fetched_instruction: u32 = self.fetch(ram)?;
        let decoded_instruction = self.decode(fetched_instruction)?;
        let ram_writes = self.execute(decoded_instruction, ram, mmio_devices)?;

        let cpu_step = CpuStep {
            step: self.step,
            fetched_instruction,
            decoded_instruction,
            cpu_state: CpuStateLog::new(self),
            ram_writes,
        };
        self.step += 1;

        Ok(cpu_step)
    }

    /// The fetch stage: reads the word at the program counter.
    pub fn fetch(&mut self, ram: &Ram) -> (res: Result<u32, EmulatorError>)
        ensures
            final(self)@ == fetch_spec(old(self)@, ram@).0,
            res == fetch_spec(old(self)@, ram@).1,
    {
        match self.state {
            CpuState::Reset | CpuState::Execute => (),
            _ => return Err(EmulatorError::Protocol { requested: CpuState::Fetch }),
        }

        self.state = CpuState::Fetch;

        let pc: u32 = self.pc.load();
        let size: usize = ram.size();
        if size < 4 || pc as usize > size - 4 {
            return Err(EmulatorError::PcOutOfBounds);
        }
        let instruction: u32 = ram.load32(pc);
        Ok(instruction)
    }

    /// The decode stage: finds the operation that a word stands for.
    pub fn decode(&mut self, instruction: u32) -> (res: Result<Instruction, EmulatorError>)
        ensures
            final(self)@ == decode_spec(old(self)@, instruction).0,
            res == decode_spec(old(self)@, instruction).1,
            res is Ok ==> res->Ok_0.well_formed(),
    {
        match self.state {
            CpuState::Fetch => (),
            _ => return Err(EmulatorError::Protocol { requested: CpuState::Decode }),
        }

        self.state = CpuState::Decode;
        let instruction_format = InstructionFormat::parse(instruction)?;
        let parsed_instruction = Instruction::parse(instruction_format)?;
        Ok(parsed_instruction)
    }

    /// Reads a register.  Fails with `RegisterIndex` exactly for an index of
    /// 32 or more.
    pub fn load_x_regs(&self, index: usize) -> (res: Result<u32, EmulatorError>)
        ensures
            index < 32 ==> res == Ok::<u32, EmulatorError>(self@.regs[index as int]),
            index >= 32 ==> res == Err::<u32, EmulatorError>(EmulatorError::RegisterIndex),
    {
        if index >= self.x_regs.len() {
            return Err(EmulatorError::RegisterIndex);
        }
        Ok(self.x_regs[index].load())
    }

    /// Writes a register.  A write to register 0 is accepted and dropped.
    /// Fails with `RegisterIndex` exactly for an index of 32 or more.
    pub fn store_x_regs(&mut self, index: usize, value: u32) -> (res: Result<(), EmulatorError>)
        ensures
            index < 32 ==> res == Ok::<(), EmulatorError>(()) && final(self)@ == (CpuView {
                regs: write_reg(old(self)@.regs, index as int, value),
                ..old(self)@
            }),
            index >= 32 ==> res == Err::<(), EmulatorError>(EmulatorError::RegisterIndex) && final(self)@ == old(self)@,
    {
        if index >= self.x_regs.len() {
            return Err(EmulatorError::RegisterIndex);
        }
        if index != 0 {
            self.x_regs[index].store(value);
        }
        assert(self@.regs =~= write_reg(old(self)@.regs, index as int, value));

        Ok(())
    }

    /// The execute stage: carries out an operation over the bus, and returns
    /// the bytes that it wrote to RAM.
    pub fn execute(
        &mut self,
        instruction: Instruction,
        ram: &mut Ram,
        mmio_devices: &mut Vec<MmioDevice>,
    ) -> (res: Result<Vec<RamWrite>, EmulatorError>)
        ensures
            final(self)@ == execute_spec(
                old(self)@,
                instruction,
                old(ram)@,
                device_models(old(mmio_devices)@),
            ).cpu,
            final(ram)@ == execute_spec(
                old(self)@,
                instruction,
                old(ram)@,
                device_models(old(mmio_devices)@),
            ).ram,
            device_models(final(mmio_devices)@) == execute_spec(
                old(self)@,
                instruction,
                old(ram)@,
                device_models(old(mmio_devices)@),
            ).devices,
            final(mmio_devices)@.len() == old(mmio_devices)@.len(),
            (match res {
                Ok(writes) => Ok::<Seq<RamWrite>, EmulatorError>(writes@),
                Err(error) => Err(error),
            }) == execute_spec(
                old(self)@,
                instruction,
                old(ram)@,
                device_models(old(mmio_devices)@),
            ).result,
    {
        match self.state {
            CpuState::Decode => (),
            _ => return Err(EmulatorError::Protocol { requested: CpuState::Execute }),
        }

        self.state = CpuState::Execute;
        let mut ram_write_logs: Vec<RamWrite> = Vec::new();
        match self.plan(instruction)? {
            Action::Trap { error } => {
                return Err(error);
            },
            Action::Write { rd, value, next_pc } => {
                self.store_x_regs(rd, value)?;
                self.pc.store(next_pc);
            },
            Action::Jump { next_pc } => {
                self.pc.store(next_pc);
            },
            Action::Load { rd, addr, width, signed } => {
                if !ram.can_access(addr, width, mmio_devices) {
                    return Err(EmulatorError::MemoryOutOfBounds);
                }
                let value: u32 = match width {
                    Width::Byte => {
                        let byte: u8 = ram.load8_with_mmio(addr, mmio_devices);
                        if signed {
                            extend_byte(byte)
                        } else {
                            byte as u32
                        }
                    },
                    Width::Half => {
                        let half: u16 = ram.load16_with_mmio(addr, mmio_devices);
                        if signed {
                            extend_half(half)
                        } else {
                            half as u32
                        }
                    },
                    Width::Word => ram.load32_with_mmio(addr, mmio_devices),
                };
                self.store_x_regs(rd, value)?;
                self.pc.increment();
            },
            Action::Store { addr, width, value } => {
                if !ram.can_access(addr, width, mmio_devices) {
                    return Err(EmulatorError::MemoryOutOfBounds);
                }
                let to_ram: bool = Ram::find_device(addr, mmio_devices).is_none();
                self.pc.increment();
                match width {
                    Width::Byte => {
                        ram.store8_with_mmio(addr, low_byte(value), mmio_devices);
                        if to_ram {
                            ram_write_logs.push(RamWrite::new(addr, byte_at(value, 0)));
                        }
                    },
                    Width::Half => {
                        ram.store16_with_mmio(addr, low_half(value), mmio_devices);
                        if to_ram {
                            ram_write_logs.push(RamWrite::new(addr, byte_at(value, 0)));
                            ram_write_logs.push(RamWrite::new(addr + 1, byte_at(value, 1)));
                        }
                    },
                    Width::Word => {
                        ram.store32_with_mmio(addr, value, mmio_devices);
                        if to_ram {
                            ram_write_logs.push(RamWrite::new(addr, byte_at(value, 0)));
                            ram_write_logs.push(RamWrite::new(addr + 1, byte_at(value, 1)));
                            ram_write_logs.push(RamWrite::new(addr + 2, byte_at(value, 2)));
                            ram_write_logs.push(RamWrite::new(addr + 3, byte_at(value, 3)));
                        }
                    },
                }
                assert(to_ram ==> ram_write_logs@ =~= store_trace(addr, width, value));
            },
        }

        Ok(ram_write_logs)
    }

    /// Reads the registers that an operation names and works out what the
    /// operation asks of the machine.
    pub fn plan(&self, instruction: Instruction) -> (res: Result<Action, EmulatorError>)
        ensures
            res == (if instruction.registers_valid() {
                Ok::<Action, EmulatorError>(instruction.action(self@.regs, self@.pc))
            } else {
                Err(EmulatorError::RegisterIndex)
            }),
    {
        if !instruction.registers_in_range() {
            return Err(EmulatorError::RegisterIndex);
        }
        let pc: u32 = self.pc.load();
        let next_pc: u32 = wrapping_sum(pc, 4);
        let action = match instruction {
            Instruction::Add { rd, rs1, rs2 } => {
                let x_rs1: u32 = self.load_x_regs(rs1)?;
                let x_rs2: u32 = self.load_x_regs(rs2)?;
                Action::Write { rd, value: wrapping_sum(x_rs1, x_rs2), next_pc }
            },
            Instruction::Addi { rd, rs1, imm } => {
                let x_rs1: u32 = self.load_x_regs(rs1)?;
                Action::Write { rd, value: offset_address(x_rs1, imm as i32), next_pc }
            },
            Instruction::Sub { rd, rs1, rs2 } => {
                let x_rs1: u32 = self.load_x_regs(rs1)?;
                let x_rs2: u32 = self.load_x_regs(rs2)?;
                Action::Write { rd, value: wrapping_difference(x_rs1, x_rs2), next_pc }
            },
            Instruction::And { rd, rs1, rs2 } => {
                let x_rs1: u32 = self.load_x_regs(rs1)?;
                let x_rs2: u32 = self.load_x_regs(rs2)?;
                Action::Write { rd, value: x_rs1 & x_rs2, next_pc }
            },
            Instruction::Andi { rd, rs1, imm } => {
                let x_rs1: u32 = self.load_x_regs(rs1)?;
                Action::Write { rd, value: x_rs1 & immediate_word(imm), next_pc }
            },
            Instruction::Or { rd, rs1, rs2 } => {
                let x_rs1: u32 = self.load_x_regs(rs1)?;
                let x_rs2: u32 = self.load_x_regs(rs2)?;
                Action::Write { rd, value: x_rs1 | x_rs2, next_pc }
            },
            Instruction::Ori { rd, rs1, imm } => {
                let x_rs1: u32 = self.load_x_regs(rs1)?;
                Action::Write { rd, value: x_rs1 | immediate_word(imm), next_pc }
            },
            Instruction::Xor { rd, rs1, rs2 } => {
                let x_rs1: u32 = self.load_x_regs(rs1)?;
                let x_rs2: u32 = self.load_x_regs(rs2)?;
                Action::Write { rd, value: x_rs1 ^ x_rs2, next_pc }
            },
            Instruction::Xori { rd, rs1, imm } => {
                let x_rs1: u32 = self.load_x_regs(rs1)?;
                Action::Write { rd, value: x_rs1 ^ immediate_word(imm), next_pc }
            },
            Instruction::Sll { rd, rs1, rs2 } => {
                let x_rs1: u32 = self.load_x_regs(rs1)?;
                let x_rs2: u32 = shift_amount(self.load_x_regs(rs2)?);
                Action::Write { rd, value: x_rs1 << x_rs2, next_pc }
            },
            Instruction::Slli { rd, rs1, shamt } => {
                let x_rs1: u32 = self.load_x_regs(rs1)?;
                Action::Write { rd, value: x_rs1 << shift_amount(shamt as u32), next_pc }
            },
            Instruction::Srl { rd, rs1, rs2 } => {
                let x_rs1: u32 = self.load_x_regs(rs1)?;
                let x_rs2: u32 = shift_amount(self.load_x_regs(rs2)?);
                Action::Write { rd, value: x_rs1 >> x_rs2, next_pc }
            },
            Instruction::Srli { rd, rs1, shamt } => {
                let x_rs1: u32 = self.load_x_regs(rs1)?;
                Action::Write { rd, value: x_rs1 >> shift_amount(shamt as u32), next_pc }
            },
            Instruction::Sra { rd, rs1, rs2 } => {
                let x_rs1: u32 = self.load_x_regs(rs1)?;
                let x_rs2: u32 = shift_amount(self.load_x_regs(rs2)?);
                Action::Write { rd, value: arithmetic_shift(x_rs1, x_rs2), next_pc }
            },
            Instruction::Srai { rd, rs1, shamt } => {
                let x_rs1: u32 = self.load_x_regs(rs1)?;
                Action::Write {
                    rd,
                    value: arithmetic_shift(x_rs1, shift_amount(shamt as u32)),
                    next_pc,
                }
            },
            Instruction::Slt { rd, rs1, rs2 } => {
                let x_rs1: u32 = self.load_x_regs(rs1)?;
                let x_rs2: u32 = self.load_x_regs(rs2)?;
                Action::Write { rd, value: less_than(x_rs1, x_rs2), next_pc }
            },
            Instruction::Slti { rd, rs1, imm } => {
                let x_rs1: u32 = self.load_x_regs(rs1)?;
                Action::Write { rd, value: less_than(x_rs1, immediate_word(imm)), next_pc }
            },
            Instruction::Sltu { rd, rs1, rs2 } => {
                let x_rs1: u32 = self.load_x_regs(rs1)?;
                let x_rs2: u32 = self.load_x_regs(rs2)?;
                Action::Write { rd, value: less_than_unsigned(x_rs1, x_rs2), next_pc }
            },
            Instruction::Sltiu { rd, rs1, imm } => {
                let x_rs1: u32 = self.load_x_regs(rs1)?;
                Action::Write { rd, value: less_than_unsigned(x_rs1, imm as u32), next_pc }
            },
            Instruction::Lb { rd, rs1, offset } => {
                let addr: u32 = offset_address(self.load_x_regs(rs1)?, offset as i32);
                Action::Load { rd, addr, width: Width::Byte, signed: true }
            },
            Instruction::Lbu { rd, rs1, offset } => {
                let addr: u32 = offset_address(self.load_x_regs(rs1)?, offset as i32);
                Action::Load { rd, addr, width: Width::Byte, signed: false }
            },
            Instruction::Sb { rs1, rs2, offset } => {
                let addr: u32 = offset_address(self.load_x_regs(rs1)?, offset as i32);
                let value: u32 = self.load_x_regs(rs2)?;
                Action::Store { addr, width: Width::Byte, value }
            },
            Instruction::Lh { rd, rs1, offset } => {
                let addr: u32 = offset_address(self.load_x_regs(rs1)?, offset as i32);
                Action::Load { rd, addr, width: Width::Half, signed: true }
            },
            Instruction::Lhu { rd, rs1, offset } => {
                let addr: u32 = offset_address(self.load_x_regs(rs1)?, offset as i32);
                Action::Load { rd, addr, width: Width::Half, signed: false }
            },
            Instruction::Sh { rs1, rs2, offset } => {
                let addr: u32 = offset_address(self.load_x_regs(rs1)?, offset as i32);
                let value: u32 = self.load_x_regs(rs2)?;
                Action::Store { addr, width: Width::Half, value }
            },
            Instruction::Lw { rd, rs1, offset } => {
                let addr: u32 = offset_address(self.load_x_regs(rs1)?, offset as i32);
                Action::Load { rd, addr, width: Width::Word, signed: false }
            },
            Instruction::Sw { rs1, rs2, offset } => {
                let addr: u32 = offset_address(self.load_x_regs(rs1)?, offset as i32);
                let value: u32 = self.load_x_regs(rs2)?;
                Action::Store { addr, width: Width::Word, value }
            },
            Instruction::Jal { rd, offset } => {
                Action::Write { rd, value: next_pc, next_pc: offset_address(pc, offset) }
            },
            Instruction::Jalr { rd, rs1, offset } => {
                let target: u32 = clear_low_bit(
                    offset_address(self.load_x_regs(rs1)?, offset as i32),
                );
                Action::Write { rd, value: next_pc, next_pc: target }
            },
            Instruction::Beq { rs1, rs2, offset } => {
                let x_rs1: u32 = self.load_x_regs(rs1)?;
                let x_rs2: u32 = self.load_x_regs(rs2)?;
                Action::Jump { next_pc: branch(x_rs1 == x_rs2, pc, offset) }
            },
            Instruction::Bne { rs1, rs2, offset } => {
                let x_rs1: u32 = self.load_x_regs(rs1)?;
                let x_rs2: u32 = self.load_x_regs(rs2)?;
                Action::Jump { next_pc: branch(x_rs1 != x_rs2, pc, offset) }
            },
            Instruction::Blt { rs1, rs2, offset } => {
                let x_rs1: u32 = self.load_x_regs(rs1)?;
                let x_rs2: u32 = self.load_x_regs(rs2)?;
                Action::Jump { next_pc: branch(less_than(x_rs1, x_rs2) == 1, pc, offset) }
            },
            Instruction::Bge { rs1, rs2, offset } => {
                let x_rs1: u32 = self.load_x_regs(rs1)?;
                let x_rs2: u32 = self.load_x_regs(rs2)?;
                Action::Jump { next_pc: branch(less_than(x_rs1, x_rs2) == 0, pc, offset) }
            },
            Instruction::Bltu { rs1, rs2, offset } => {
                let x_rs1: u32 = self.load_x_regs(rs1)?;
                let x_rs2: u32 = self.load_x_regs(rs2)?;
                Action::Jump { next_pc: branch(x_rs1 < x_rs2, pc, offset) }
            },
            Instruction::Bgeu { rs1, rs2, offset } => {
                let x_rs1: u32 = self.load_x_regs(rs1)?;
                let x_rs2: u32 = self.load_x_regs(rs2)?;
                Action::Jump { next_pc: branch(x_rs1 >= x_rs2, pc, offset) }
            },
            Instruction::Lui { rd, imm } => Action::Write { rd, value: imm, next_pc },
            Instruction::Auipc { rd, imm } => {
                Action::Write { rd, value: wrapping_sum(pc, imm), next_pc }
            },
            Instruction::Fence { pred, succ } => Action::Trap {
                error: EmulatorError::Fence { pred, succ },
            },
            Instruction::Ecall => Action::Trap { error: EmulatorError::Ecall },
            Instruction::Ebreak => Action::Trap { error: EmulatorError::Ebreak },
        };
        Ok(action)
    }
}

/// The program counter after a branch: `pc + offset` if the branch is taken,
/// else the next word.
fn branch(taken: bool, pc: u32, offset: i16) -> (target: u32)
    ensures
        target == branch_target(taken, pc, offset as int),
{
    if taken {
        offset_address(pc, offset as i32)
    } else {
        wrapping_sum(pc, 4)
    }
}

} // verus!
