//! The trace of a run: the state before the first step, one record for
//! every step, and the requests of the devices.

use vstd::prelude::*;
use crate::cpu::{Cpu, CpuState, CpuView};
use crate::instruction::Instruction;
use crate::mmio_device::RequestFromDevice;
use crate::ram::Ram;

verus! {

/// A snapshot of the CPU: the registers under their ABI names, the program
/// counter and the stage.
#[derive(Debug, Clone, Copy, PartialEq, Eq, Structural)]
pub struct CpuStateLog {
    pub zero: u32,
    pub ra: u32,
    pub sp: u32,
    pub gp: u32,
    pub tp: u32,
    pub t0: u32,
    pub t1: u32,
    pub t2: u32,
    pub s0: u32,
    pub s1: u32,
    pub a0: u32,
    pub a1: u32,
    pub a2: u32,
    pub a3: u32,
    pub a4: u32,
    pub a5: u32,
    pub a6: u32,
    pub a7: u32,
    pub s2: u32,
    pub s3: u32,
    pub s4: u32,
    pub s5: u32,
    pub s6: u32,
    pub s7: u32,
    pub s8: u32,
    pub s9: u32,
    pub s10: u32,
    pub s11: u32,
    pub t3: u32,
    pub t4: u32,
    pub t5: u32,
    pub t6: u32,
    pub pc: u32,
    pub state: CpuState,
}

impl CpuStateLog {
    /// The registers of the snapshot in the order of the register file.
    pub open spec fn registers(self) -> Seq<u32> {
        seq![
            self.zero,
            self.ra,
            self.sp,
            self.gp,
            self.tp,
            self.t0,
            self.t1,
            self.t2,
            self.s0,
            self.s1,
            self.a0,
            self.a1,
            self.a2,
            self.a3,
            self.a4,
            self.a5,
            self.a6,
            self.a7,
            self.s2,
            self.s3,
            self.s4,
            self.s5,
            self.s6,
            self.s7,
            self.s8,
            self.s9,
            self.s10,
            self.s11,
            self.t3,
            self.t4,
            self.t5,
            self.t6,
        ]
    }

    /// The snapshot of a CPU.
    pub open spec fn of(cpu: CpuView) -> CpuStateLog {
        CpuStateLog {
            zero: cpu.regs[0],
            ra: cpu.regs[1],
            sp: cpu.regs[2],
            gp: cpu.regs[3],
            tp: cpu.regs[4],
            t0: cpu.regs[5],
            t1: cpu.regs[6],
            t2: cpu.regs[7],
            s0: cpu.regs[8],
            s1: cpu.regs[9],
            a0: cpu.regs[10],
            a1: cpu.regs[11],
            a2: cpu.regs[12],
            a3: cpu.regs[13],
            a4: cpu.regs[14],
            a5: cpu.regs[15],
            a6: cpu.regs[16],
            a7: cpu.regs[17],
            s2: cpu.regs[18],
            s3: cpu.regs[19],
            s4: cpu.regs[20],
            s5: cpu.regs[21],
            s6: cpu.regs[22],
            s7: cpu.regs[23],
            s8: cpu.regs[24],
            s9: cpu.regs[25],
            s10: cpu.regs[26],
            s11: cpu.regs[27],
            t3: cpu.regs[28],
            t4: cpu.regs[29],
            t5: cpu.regs[30],
            t6: cpu.regs[31],
            pc: cpu.pc,
            state: cpu.state,
        }
    }

    /// Takes a snapshot of the CPU.
    pub fn new(cpu: &Cpu) -> (log: Self)
        ensures
            log == CpuStateLog::of(cpu@),
            log.registers() == cpu@.regs,
            log.pc == cpu@.pc,
            log.state == cpu@.state,
    {
        let log = Self {
            zero: cpu.x_regs[0].load(),
            ra: cpu.x_regs[1].load(),
            sp: cpu.x_regs[2].load(),
            gp: cpu.x_regs[3].load(),
            tp: cpu.x_regs[4].load(),
            t0: cpu.x_regs[5].load(),
            t1: cpu.x_regs[6].load(),
            t2: cpu.x_regs[7].load(),
            s0: cpu.x_regs[8].load(),
            s1: cpu.x_regs[9].load(),
            a0: cpu.x_regs[10].load(),
            a1: cpu.x_regs[11].load(),
            a2: cpu.x_regs[12].load(),
            a3: cpu.x_regs[13].load(),
            a4: cpu.x_regs[14].load(),
            a5: cpu.x_regs[15].load(),
            a6: cpu.x_regs[16].load(),
            a7: cpu.x_regs[17].load(),
            s2: cpu.x_regs[18].load(),
            s3: cpu.x_regs[19].load(),
            s4: cpu.x_regs[20].load(),
            s5: cpu.x_regs[21].load(),
            s6: cpu.x_regs[22].load(),
            s7: cpu.x_regs[23].load(),
            s8: cpu.x_regs[24].load(),
            s9: cpu.x_regs[25].load(),
            s10: cpu.x_regs[26].load(),
            s11: cpu.x_regs[27].load(),
            t3: cpu.x_regs[28].load(),
            t4: cpu.x_regs[29].load(),
            t5: cpu.x_regs[30].load(),
            t6: cpu.x_regs[31].load(),
            pc: cpu.pc.load(),
            state: cpu.state,
        };
        assert(log.registers() =~= cpu@.regs);
        log
    }
}

/// One byte written to RAM.
#[derive(Debug, Clone, Copy, PartialEq, Eq, Structural)]
pub struct RamWrite {
    pub addr: u32,
    pub value: u8,
}

impl RamWrite {
    pub fn new(addr: u32, value: u8) -> (write: Self)
        ensures
            write == (RamWrite { addr, value }),
    {
        Self { addr, value }
    }
}

/// The record of one step: the word fetched, the operation it stands for,
/// the CPU after the step and the bytes that the step wrote to RAM.
#[derive(Debug)]
pub struct CpuStep {
    pub step: usize,
    pub fetched_instruction: u32,
    pub decoded_instruction: Instruction,
    pub cpu_state: CpuStateLog,
    pub ram_writes: Vec<RamWrite>,
}

/// The record of a step as the contracts see it.
pub struct CpuStepView {
    pub step: usize,
    pub fetched_instruction: u32,
    pub decoded_instruction: Instruction,
    pub cpu_state: CpuStateLog,
    pub ram_writes: Seq<RamWrite>,
}

impl View for CpuStep {
    type V = CpuStepView;

    open spec fn view(&self) -> CpuStepView {
        CpuStepView {
            step: self.step,
            fetched_instruction: self.fetched_instruction,
            decoded_instruction: self.decoded_instruction,
            cpu_state: self.cpu_state,
            ram_writes: self.ram_writes@,
        }
    }
}

/// A request that a device made, and the number of steps completed when it
/// made it.
#[derive(Debug, Clone, Copy, PartialEq, Eq, Structural)]
pub struct DeviceRequest {
    pub step: usize,
    pub req: RequestFromDevice,
}

/// The trace of a run.
#[derive(Debug)]
pub struct Log {
    pub init_cpu_state: CpuStateLog,
    pub init_ram: Vec<u8>,
    pub steps: Vec<CpuStep>,
    pub dev_reqs: Vec<DeviceRequest>,
}

impl Log {
    /// The trace of a run that has not taken a step: the state of the CPU
    /// and the contents of RAM before the first step.
    pub fn new(cpu: &Cpu, ram: &Ram) -> (log: Self)
        ensures
            log@ == (LogView {
                init_cpu_state: CpuStateLog::of(cpu@),
                init_ram: ram@,
                steps: Seq::empty(),
                dev_reqs: Seq::empty(),
            }),
    {
        let log = Log {
            init_cpu_state: CpuStateLog::new(cpu),
            init_ram: ram.0.clone(),
            steps: Vec::new(),
            dev_reqs: Vec::new(),
        };
        assert(log@.init_ram =~= ram@);
        assert(log@.steps =~= Seq::empty());
        assert(log@.dev_reqs =~= Seq::empty());
        log
    }
}

/// The trace of a run as the contracts see it.
pub struct LogView {
    pub init_cpu_state: CpuStateLog,
    pub init_ram: Seq<u8>,
    pub steps: Seq<CpuStepView>,
    pub dev_reqs: Seq<DeviceRequest>,
}

impl View for Log {
    type V = LogView;

    open spec fn view(&self) -> LogView {
        LogView {
            init_cpu_state: self.init_cpu_state,
            init_ram: self.init_ram@,
            steps: Seq::new(self.steps@.len(), |i: int| self.steps@[i]@),
            dev_reqs: self.dev_reqs@,
        }
    }
}

} // verus!
