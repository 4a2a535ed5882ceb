//! The driver: the machine as a whole, and the loop that runs it.

use vstd::prelude::*;
use crate::cpu::{Cpu, CpuView, reset_view};
use crate::error::EmulatorError;
use crate::mmio_device::{
    device_models,
    DeviceModel,
    MmioDevice,
    MmioDeviceInterface,
    RequestFromDevice,
};
use crate::ram::Ram;
use crate::semantics::{
    lemma_step_counts,
    lemma_step_keeps_pc_even,
    lemma_step_keeps_x0,
    lemma_step_trace_replays,
    replay,
    step_spec,
};
use crate::step_log::{CpuStateLog, CpuStepView, DeviceRequest, Log, LogView};

verus! {

/// The machine: a CPU, its RAM and the devices laid over it, in
/// registration order.
pub struct Emulator {
    pub cpu: Cpu,
    pub ram: Ram,
    pub mmio_devices: Vec<MmioDevice>,
}

/// The machine as the contracts see it.
pub struct Machine {
    pub cpu: CpuView,
    pub ram: Seq<u8>,
    pub devices: Seq<DeviceModel>,
}

impl View for Emulator {
    type V = Machine;

    open spec fn view(&self) -> Machine {
        Machine { cpu: self.cpu@, ram: self.ram@, devices: device_models(self.mmio_devices@) }
    }
}

/// The request of the first device from index `start` on that has one.
pub open spec fn first_request(devices: Seq<DeviceModel>, start: int) -> Option<RequestFromDevice>
    decreases devices.len() - start,
{
    if start < 0 || start >= devices.len() {
        None
    } else {
        match devices[start].pending() {
            Some(request) => Some(request),
            None => first_request(devices, start + 1),
        }
    }
}

/// The first request wins: `first_request` gives the request of the device
/// with the least index that has one, and none exactly if no device has
/// one.
pub proof fn lemma_first_request(devices: Seq<DeviceModel>, start: int)
    requires
        0 <= start <= devices.len(),
    ensures
        match first_request(devices, start) {
            Some(request) => exists|i: int|
                start <= i < devices.len() && (#[trigger] devices[i]).pending() == Some(request)
                    && forall|j: int| start <= j < i ==> (#[trigger] devices[j]).pending() is None,
            None => forall|j: int|
                start <= j < devices.len() ==> (#[trigger] devices[j]).pending() is None,
        },
    decreases devices.len() - start,
{
    if start < devices.len() {
        if devices[start].pending() is None {
            lemma_first_request(devices, start + 1);
        }
    }
}

/// How a run ends: the machine and the trace at its end, and the exit code
/// or the error that ended it.
pub struct RunOutcome {
    pub machine: Machine,
    pub log: LogView,
    pub result: Result<u8, EmulatorError>,
}

/// The trace before the first step of a run.
pub open spec fn initial_log(machine: Machine) -> LogView {
    LogView {
        init_cpu_state: CpuStateLog::of(machine.cpu),
        init_ram: machine.ram,
        steps: Seq::empty(),
        dev_reqs: Seq::empty(),
    }
}

/// What a run does from `machine` on, with `log` as the trace so far.
///
/// Each round first polls the devices in registration order.  The first
/// request ends the run: it is recorded with the number of steps completed,
/// and its code is the exit code.  With no request the CPU takes one step.
/// An error of the step ends the run; else the step is recorded, and the run
/// ends with exit code 0 if the program counter has left RAM.
///
/// A run so defined ends: every round counts a step, and a step that cannot
/// be counted fails.
pub open spec fn run_spec(machine: Machine, log: LogView) -> RunOutcome
    decreases usize::MAX - machine.cpu.step,
{
    match first_request(machine.devices, 0) {
        Some(request) => RunOutcome {
            machine,
            log: LogView {
                dev_reqs: log.dev_reqs.push(DeviceRequest { step: machine.cpu.step, req: request }),
                ..log
            },
            result: Ok(request->Exit_0),
        },
        None => {
            let stepped = step_spec(machine.cpu, machine.ram, machine.devices);
            let next = Machine { cpu: stepped.cpu, ram: stepped.ram, devices: stepped.devices };
            match stepped.result {
                Err(error) => RunOutcome { machine: next, log, result: Err(error) },
                Ok(cpu_step) => {
                    let log = LogView { steps: log.steps.push(cpu_step), ..log };
                    if next.cpu.pc >= next.ram.len() {
                        RunOutcome { machine: next, log, result: Ok(0) }
                    } else {
                        run_spec(next, log)
                    }
                },
            }
        },
    }
}

/// Register 0 is hardwired: a run leaves it as it was, and every step that
/// the run records is recorded with this value of it.  From a machine whose
/// register 0 is zero, register 0 is zero after every step.
pub proof fn lemma_run_keeps_x0(machine: Machine, log: LogView)
    requires
        machine.cpu.regs.len() == 32,
    ensures
        run_spec(machine, log).machine.cpu.regs.len() == 32,
        run_spec(machine, log).machine.cpu.regs[0] == machine.cpu.regs[0],
        forall|i: int|
            log.steps.len() <= i < run_spec(machine, log).log.steps.len() ==> (
            #[trigger] run_spec(machine, log).log.steps[i]).cpu_state.zero == machine.cpu.regs[0],
    decreases usize::MAX - machine.cpu.step,
{
    if first_request(machine.devices, 0) is None {
        let stepped = step_spec(machine.cpu, machine.ram, machine.devices);
        let next = Machine { cpu: stepped.cpu, ram: stepped.ram, devices: stepped.devices };
        lemma_step_keeps_x0(machine.cpu, machine.ram, machine.devices);
        lemma_step_counts(machine.cpu, machine.ram, machine.devices);
        if let Ok(cpu_step) = stepped.result {
            let extended = LogView { steps: log.steps.push(cpu_step), ..log };
            if next.cpu.pc < next.ram.len() {
                lemma_run_keeps_x0(next, extended);
                lemma_run_numbers_steps(next, extended);
            }
        }
    }
}

/// An even program counter stays even: from a machine whose program counter
/// is even, the program counter is even after every step of a run.
pub proof fn lemma_run_keeps_pc_even(machine: Machine, log: LogView)
    requires
        machine.cpu.pc % 2 == 0,
    ensures
        run_spec(machine, log).machine.cpu.pc % 2 == 0,
        forall|i: int|
            log.steps.len() <= i < run_spec(machine, log).log.steps.len() ==> (
            #[trigger] run_spec(machine, log).log.steps[i]).cpu_state.pc % 2 == 0,
    decreases usize::MAX - machine.cpu.step,
{
    if first_request(machine.devices, 0) is None {
        let stepped = step_spec(machine.cpu, machine.ram, machine.devices);
        let next = Machine { cpu: stepped.cpu, ram: stepped.ram, devices: stepped.devices };
        lemma_step_keeps_pc_even(machine.cpu, machine.ram, machine.devices);
        lemma_step_counts(machine.cpu, machine.ram, machine.devices);
        if let Ok(cpu_step) = stepped.result {
            let extended = LogView { steps: log.steps.push(cpu_step), ..log };
            if next.cpu.pc < next.ram.len() {
                lemma_run_keeps_pc_even(next, extended);
                lemma_run_numbers_steps(next, extended);
            }
        }
    }
}

/// Every step appends exactly one record to the trace, and the records are
/// numbered in order: a run keeps the records that the trace held, adds one
/// for each step that it counts, and the record of its `k`-th step bears the
/// number of steps completed before the run plus `k`.  From a CPU after
/// reset and an empty trace, record `i` bears the number `i`.
pub proof fn lemma_run_numbers_steps(machine: Machine, log: LogView)
    ensures
        run_spec(machine, log).log.steps.len() - log.steps.len() == run_spec(
            machine,
            log,
        ).machine.cpu.step - machine.cpu.step,
        forall|i: int|
            0 <= i < log.steps.len() ==> (#[trigger] run_spec(machine, log).log.steps[i])
                == log.steps[i],
        forall|i: int|
            log.steps.len() <= i < run_spec(machine, log).log.steps.len() ==> (
            #[trigger] run_spec(machine, log).log.steps[i]).step == machine.cpu.step + (i
                - log.steps.len()),
        run_spec(machine, log).log.init_cpu_state == log.init_cpu_state,
        run_spec(machine, log).log.init_ram == log.init_ram,
    decreases usize::MAX - machine.cpu.step,
{
    if first_request(machine.devices, 0) is None {
        let stepped = step_spec(machine.cpu, machine.ram, machine.devices);
        let next = Machine { cpu: stepped.cpu, ram: stepped.ram, devices: stepped.devices };
        lemma_step_counts(machine.cpu, machine.ram, machine.devices);
        if let Ok(cpu_step) = stepped.result {
            let extended = LogView { steps: log.steps.push(cpu_step), ..log };
            if next.cpu.pc < next.ram.len() {
                lemma_run_numbers_steps(next, extended);
            }
        }
    }
}

/// RAM after the traces of the first `n` records were written to it, record
/// by record.
pub open spec fn replay_steps(ram: Seq<u8>, steps: Seq<CpuStepView>, n: int) -> Seq<u8>
    decreases n,
{
    if n <= 0 || n > steps.len() {
        ram
    } else {
        replay(replay_steps(ram, steps, n - 1), steps[n - 1].ram_writes)
    }
}

/// What the first `n` records do to RAM does not depend on a record that
/// comes after them.
pub proof fn lemma_replay_steps_of_prefix(
    ram: Seq<u8>,
    steps: Seq<CpuStepView>,
    cpu_step: CpuStepView,
    n: int,
)
    requires
        0 <= n <= steps.len(),
    ensures
        replay_steps(ram, steps.push(cpu_step), n) == replay_steps(ram, steps, n),
    decreases n,
{
    if n > 0 {
        lemma_replay_steps_of_prefix(ram, steps, cpu_step, n - 1);
    }
}

/// The trace tells what became of RAM: where the records of a trace, written
/// to the RAM that the trace began with, give RAM as it is, they still do
/// so after a run.  So from a fresh trace, the RAM at the end of a run is
/// the RAM at its beginning with the bytes of every step written to it.
pub proof fn lemma_run_trace_replays(machine: Machine, log: LogView)
    requires
        replay_steps(log.init_ram, log.steps, log.steps.len() as int) == machine.ram,
    ensures
        replay_steps(
            run_spec(machine, log).log.init_ram,
            run_spec(machine, log).log.steps,
            run_spec(machine, log).log.steps.len() as int,
        ) == run_spec(machine, log).machine.ram,
    decreases usize::MAX - machine.cpu.step,
{
    if first_request(machine.devices, 0) is None {
        let stepped = step_spec(machine.cpu, machine.ram, machine.devices);
        let next = Machine { cpu: stepped.cpu, ram: stepped.ram, devices: stepped.devices };
        lemma_step_trace_replays(machine.cpu, machine.ram, machine.devices);
        lemma_step_counts(machine.cpu, machine.ram, machine.devices);
        if let Ok(cpu_step) = stepped.result {
            let extended = LogView { steps: log.steps.push(cpu_step), ..log };
            lemma_replay_steps_of_prefix(
                log.init_ram,
                log.steps,
                cpu_step,
                log.steps.len() as int,
            );
            assert(replay_steps(extended.init_ram, extended.steps, extended.steps.len() as int)
                == next.ram);
            if next.cpu.pc < next.ram.len() {
                lemma_run_trace_replays(next, extended);
            }
        }
    }
}

/// A run ends on the first request of a device, and a device is asked
/// before the next word is fetched: where a device has a request, no step is
/// taken, and the exit code is the code of the first device that has one.
pub proof fn lemma_run_ends_on_request(machine: Machine, log: LogView)
    requires
        first_request(machine.devices, 0) is Some,
    ensures
        run_spec(machine, log).machine == machine,
        run_spec(machine, log).log.steps == log.steps,
        run_spec(machine, log).result == Ok::<u8, EmulatorError>(
            first_request(machine.devices, 0)->Some_0->Exit_0,
        ),
        run_spec(machine, log).log.dev_reqs == log.dev_reqs.push(
            DeviceRequest {
                step: machine.cpu.step,
                req: first_request(machine.devices, 0)->Some_0,
            },
        ),
{
}

impl Default for Emulator {
    /// A machine after reset with one mebibyte of zeroed RAM and no device.
    fn default() -> (emulator: Self)
        ensures
            emulator@.cpu == reset_view(),
            emulator@.ram.len() == crate::ram::DEFAULT_RAM_SIZE,
            forall|i: int| 0 <= i < emulator@.ram.len() ==> emulator@.ram[i] == 0,
            emulator@.devices.len() == 0,
    {
        Self { cpu: Cpu::default(), ram: Ram::default(), mmio_devices: Vec::new() }
    }
}

impl Emulator {
    /// A machine after reset whose RAM holds `ram_data`, with no device.
    pub fn new(ram_data: Vec<u8>) -> (emulator: Self)
        ensures
            emulator@ == (Machine { cpu: reset_view(), ram: ram_data@, devices: Seq::empty() }),
    {
        let emulator = Self {
            cpu: Cpu::default(),
            ram: Ram::new_with_data(ram_data),
            mmio_devices: Vec::new(),
        };
        assert(emulator@.devices =~= Seq::empty());
        emulator
    }

    /// Adds a device to the bus, behind the devices registered before.
    pub fn register_mmio_device(&mut self, device: MmioDevice)
        ensures
            final(self)@ == (Machine {
                devices: old(self)@.devices.push(device.model()),
                ..old(self)@
            }),
    {
        self.mmio_devices.push(device);
        assert(self@.devices =~= old(self)@.devices.push(device.model()));
    }

    /// Polls the devices in registration order up to the first request.
    pub fn poll_devices(&mut self) -> (request: Option<RequestFromDevice>)
        ensures
            final(self)@ == old(self)@,
            request == first_request(old(self)@.devices, 0),
    {
        let ghost models = self@.devices;
        let mut i: usize = 0;
        while i < self.mmio_devices.len()
            invariant
                i <= self.mmio_devices.len(),
                self.cpu == old(self).cpu,
                self.ram == old(self).ram,
                models == old(self)@.devices,
                device_models(self.mmio_devices@) =~= models,
                first_request(models, 0) == first_request(models, i as int),
            decreases self.mmio_devices.len() - i,
        {
            let ghost before = device_models(self.mmio_devices@);
            let polled = self.mmio_devices[i].poll_request();
            assert(device_models(self.mmio_devices@) =~= before);
            if polled.is_some() {
                return polled;
            }
            i += 1;
        }
        None
    }

    /// Runs the machine to its end, adding to `log`.  The trace holds every
    /// step completed, also where the run ends with an error.
    pub fn run_with_log(&mut self, log: &mut Log) -> (res: Result<u8, EmulatorError>)
        ensures
            final(self)@ == run_spec(old(self)@, old(log)@).machine,
            final(log)@ == run_spec(old(self)@, old(log)@).log,
            res == run_spec(old(self)@, old(log)@).result,
            final(self)@.cpu.regs[0] == old(self)@.cpu.regs[0],
            old(self)@.cpu.pc % 2 == 0 ==> final(self)@.cpu.pc % 2 == 0,
            final(log)@.steps.len() - old(log)@.steps.len() == final(self)@.cpu.step - old(self)@.cpu.step,
            forall|i: int|
                old(log)@.steps.len() <= i < final(log)@.steps.len() ==> (#[trigger] final(log)@.steps[i]).step == old(self)@.cpu.step + (i - old(log)@.steps.len()),
            final(log)@.init_cpu_state == old(log)@.init_cpu_state,
            final(log)@.init_ram == old(log)@.init_ram,
            replay_steps(old(log)@.init_ram, old(log)@.steps, old(log)@.steps.len() as int) == old(self)@.ram ==> replay_steps(
                final(log)@.init_ram,
                final(log)@.steps,
                final(log)@.steps.len() as int,
            ) == final(self)@.ram,
    {
        proof {
            lemma_run_keeps_x0(self@, log@);
            lemma_run_numbers_steps(self@, log@);
            if replay_steps(log@.init_ram, log@.steps, log@.steps.len() as int) == self@.ram {
                lemma_run_trace_replays(self@, log@);
            }
            if self@.cpu.pc % 2 == 0 {
                lemma_run_keeps_pc_even(self@, log@);
            }
        }
        self.run_rounds(log)
    }

    /// The rounds of a run: poll, step, record, until the run ends.
    fn run_rounds(&mut self, log: &mut Log) -> (res: Result<u8, EmulatorError>)
        ensures
            final(self)@ == run_spec(old(self)@, old(log)@).machine,
            final(log)@ == run_spec(old(self)@, old(log)@).log,
            res == run_spec(old(self)@, old(log)@).result,
    {
        loop
            invariant
                run_spec(self@, log@) == run_spec(old(self)@, old(log)@),
            decreases usize::MAX - self.cpu.step,
        {
            let ghost trace = log@;
            if let Some(req) = self.poll_devices() {
                log.dev_reqs.push(DeviceRequest { step: self.cpu.step, req });
                match req {
                    RequestFromDevice::Exit(exit_code) => {
                        return Ok(exit_code);
                    },
                }
            }
            let cpu_step = self.cpu.fetch_decode_execute(&mut self.ram, &mut self.mmio_devices)?;
            let ghost recorded = cpu_step@;
            log.steps.push(cpu_step);
            assert(log@.steps =~= trace.steps.push(recorded));

            if self.cpu.pc.load() as usize >= self.ram.size() {
                return Ok(0);
            }
        }
    }

    /// Runs the machine to its end: until a device asks to exit, the program
    /// counter leaves RAM, or a step fails.  Returns the exit code and the
    /// trace.
    pub fn run(&mut self) -> (res: Result<(u8, Log), EmulatorError>)
        ensures
            final(self)@ == run_spec(old(self)@, initial_log(old(self)@)).machine,
            (match res {
                Ok((exit_code, _)) => Ok::<u8, EmulatorError>(exit_code),
                Err(error) => Err(error),
            }) == run_spec(old(self)@, initial_log(old(self)@)).result,
            res is Ok ==> res->Ok_0.1@ == run_spec(old(self)@, initial_log(old(self)@)).log,
            final(self)@.cpu.regs[0] == old(self)@.cpu.regs[0],
            old(self)@.cpu.pc % 2 == 0 ==> final(self)@.cpu.pc % 2 == 0,
            res is Ok ==> res->Ok_0.1@.steps.len() == final(self)@.cpu.step - old(self)@.cpu.step,
            res is Ok ==> forall|i: int|
                0 <= i < res->Ok_0.1@.steps.len() ==> (#[trigger] res->Ok_0.1@.steps[i]).step
                    == old(self)@.cpu.step + i,
            res is Ok ==> res->Ok_0.1@.init_ram == old(self)@.ram && replay_steps(
                old(self)@.ram,
                res->Ok_0.1@.steps,
                res->Ok_0.1@.steps.len() as int,
            ) == final(self)@.ram,
    {
        let mut log = Log::new(&self.cpu, &self.ram);
        let exit_code: u8 = self.run_with_log(&mut log)?;
        Ok((exit_code, log))
    }

    /// Resets the CPU.  RAM and the devices stay as they are.
    pub fn reset(&mut self)
        ensures
            final(self)@ == (Machine { cpu: reset_view(), ..old(self)@ }),
    {
        self.cpu.reset();
    }
}

} // verus!
