use frisc::cpu::{Cpu, CpuState};
use frisc::error::{EmulatorError, ErrorKind};
use frisc::instruction::Instruction;
use frisc::mmio_device::debug_exit::DebugExit;
use frisc::mmio_device::simple_uart::SimpleUart;
use frisc::mmio_device::{MmioDevice, MmioDeviceInterface, RequestFromDevice};
use frisc::ram::Ram;
use frisc::register::{ProgramCounter, Register};
use frisc::semantics::{Action, Width};
use frisc::step_log::{CpuStateLog, RamWrite};
use frisc::word;

/// A CPU in the state from which the execute stage is entered.
fn ready(regs: &[(usize, u32)], pc: u32) -> Cpu {
    let mut cpu = Cpu::default();
    for (index, value) in regs {
        cpu.x_regs[*index].store(*value);
    }
    cpu.pc.store(pc);
    cpu.state = CpuState::Decode;
    cpu
}

/// Executes one operation on a machine without devices and with 256 bytes of
/// RAM, and returns the CPU after it.
fn run_one(regs: &[(usize, u32)], pc: u32, instruction: Instruction) -> Cpu {
    let mut cpu = ready(regs, pc);
    let mut ram = Ram::new(256);
    let mut devices: Vec<MmioDevice> = Vec::new();
    let writes = cpu.execute(instruction, &mut ram, &mut devices).unwrap();
    assert!(writes.is_empty());
    assert_eq!(cpu.state, CpuState::Execute);
    cpu
}

fn x(cpu: &Cpu, index: usize) -> u32 {
    cpu.x_regs[index].load()
}

#[test]
fn a_register_holds_what_was_stored() {
    let mut register = Register::default();
    assert_eq!(register.load(), 0);
    register.store(0xdead_beef);
    assert_eq!(register.load(), 0xdead_beef);
}

#[test]
fn the_program_counter_steps_by_4_and_wraps() {
    let mut pc = ProgramCounter::default();
    pc.increment();
    assert_eq!(pc.load(), 4);
    pc.increment();
    assert_eq!(pc.load(), 8);
    pc.store(0xffff_fffc);
    pc.increment();
    assert_eq!(pc.load(), 0);
    pc.store(0xffff_fffe);
    pc.increment();
    assert_eq!(pc.load(), 2);
    pc.store(0xffff_fff8);
    pc.increment();
    assert_eq!(pc.load(), 0xffff_fffc);
}

#[test]
fn reset_zeros_the_cpu() {
    let mut cpu = ready(&[(1, 5), (31, 7)], 0x40);
    cpu.step = 9;
    cpu.reset();
    for index in 0..32 {
        assert_eq!(x(&cpu, index), 0);
    }
    assert_eq!(cpu.pc.load(), 0);
    assert_eq!(cpu.state, CpuState::Reset);
    assert_eq!(cpu.step, 0);

    let cpu = Cpu::default();
    for index in 0..32 {
        assert_eq!(x(&cpu, index), 0);
    }
    assert_eq!(cpu.pc.load(), 0);
    assert_eq!(cpu.state, CpuState::Reset);
    assert_eq!(cpu.step, 0);
}

#[test]
fn register_accessors_check_the_index() {
    let mut cpu = Cpu::default();
    assert_eq!(cpu.store_x_regs(31, 77), Ok(()));
    assert_eq!(cpu.load_x_regs(31), Ok(77));
    assert_eq!(cpu.load_x_regs(0), Ok(0));
    assert_eq!(cpu.load_x_regs(32), Err(EmulatorError::RegisterIndex));
    assert_eq!(cpu.load_x_regs(usize::MAX), Err(EmulatorError::RegisterIndex));
    assert_eq!(cpu.store_x_regs(32, 1), Err(EmulatorError::RegisterIndex));
    assert_eq!(cpu.load_x_regs(31), Ok(77));
}

#[test]
fn writes_to_register_0_are_dropped() {
    let mut cpu = Cpu::default();
    assert_eq!(cpu.store_x_regs(0, 0xffff_ffff), Ok(()));
    assert_eq!(cpu.load_x_regs(0), Ok(0));

    let cpu = run_one(&[(1, 5)], 0, Instruction::Addi { rd: 0, rs1: 1, imm: 7 });
    assert_eq!(x(&cpu, 0), 0);
    assert_eq!(cpu.pc.load(), 4);
    let cpu = run_one(&[], 0x10, Instruction::Jal { rd: 0, offset: 64 });
    assert_eq!(x(&cpu, 0), 0);
    assert_eq!(cpu.pc.load(), 0x50);
    let cpu = run_one(&[], 0, Instruction::Lui { rd: 0, imm: 0xfffff000 });
    assert_eq!(x(&cpu, 0), 0);
    let cpu = run_one(&[], 0, Instruction::Lw { rd: 0, rs1: 0, offset: 0 });
    assert_eq!(x(&cpu, 0), 0);
}

#[test]
fn fetch_is_entered_from_reset_and_execute_only() {
    let ram = Ram::new_with_data(vec![0x93, 0x80, 0x10, 0x00]);
    for state in [CpuState::Reset, CpuState::Execute] {
        let mut cpu = Cpu::default();
        cpu.state = state;
        assert_eq!(cpu.fetch(&ram), Ok(0x00108093));
        assert_eq!(cpu.state, CpuState::Fetch);
    }
    for state in [CpuState::Fetch, CpuState::Decode] {
        let mut cpu = Cpu::default();
        cpu.state = state;
        assert_eq!(cpu.fetch(&ram), Err(EmulatorError::Protocol { requested: CpuState::Fetch }));
        assert_eq!(cpu.state, state);
    }
}

#[test]
fn decode_is_entered_from_fetch_only() {
    let mut cpu = Cpu::default();
    cpu.state = CpuState::Fetch;
    assert_eq!(cpu.decode(0x00108093), Ok(Instruction::Addi { rd: 1, rs1: 1, imm: 1 }));
    assert_eq!(cpu.state, CpuState::Decode);
    for state in [CpuState::Reset, CpuState::Decode, CpuState::Execute] {
        let mut cpu = Cpu::default();
        cpu.state = state;
        assert_eq!(cpu.decode(0x00108093), Err(EmulatorError::Protocol { requested: CpuState::Decode }));
        assert_eq!(cpu.state, state);
    }
}

#[test]
fn execute_is_entered_from_decode_only() {
    let mut ram = Ram::new(16);
    let mut devices: Vec<MmioDevice> = Vec::new();
    for state in [CpuState::Reset, CpuState::Fetch, CpuState::Execute] {
        let mut cpu = Cpu::default();
        cpu.state = state;
        let res = cpu.execute(Instruction::Addi { rd: 1, rs1: 1, imm: 1 }, &mut ram, &mut devices);
        assert_eq!(res, Err(EmulatorError::Protocol { requested: CpuState::Execute }));
        assert_eq!(cpu.state, state);
        assert_eq!(x(&cpu, 1), 0);
        assert_eq!(cpu.pc.load(), 0);
    }
}

#[test]
fn a_word_that_is_no_instruction_fails_to_decode() {
    let mut cpu = Cpu::default();
    cpu.state = CpuState::Fetch;
    assert_eq!(cpu.decode(0), Err(EmulatorError::Decode));
    assert_eq!(cpu.state, CpuState::Decode);
}

#[test]
fn the_program_counter_has_to_address_a_word_of_ram() {
    let ram = Ram::new_with_data(vec![0x13, 0, 0, 0, 0x13, 0, 0, 0]);
    for (pc, expected) in [
        (0, Ok(0x13)),
        (4, Ok(0x13)),
        (2, Ok(0x00130000)),
        (5, Err(EmulatorError::PcOutOfBounds)),
        (7, Err(EmulatorError::PcOutOfBounds)),
        (8, Err(EmulatorError::PcOutOfBounds)),
        (0xffff_fffc, Err(EmulatorError::PcOutOfBounds)),
    ] {
        let mut cpu = Cpu::default();
        cpu.pc.store(pc);
        assert_eq!(cpu.fetch(&ram), expected, "pc {}", pc);
        assert_eq!(cpu.state, CpuState::Fetch);
    }
    let mut cpu = Cpu::default();
    assert_eq!(cpu.fetch(&Ram::new(3)), Err(EmulatorError::PcOutOfBounds));
    assert_eq!(cpu.fetch(&Ram::new(0)), Err(EmulatorError::Protocol { requested: CpuState::Fetch }));
}

#[test]
fn an_operation_on_a_register_that_does_not_exist_fails() {
    let mut ram = Ram::new(16);
    let mut devices: Vec<MmioDevice> = Vec::new();
    for instruction in [
        Instruction::Add { rd: 32, rs1: 1, rs2: 2 },
        Instruction::Add { rd: 1, rs1: 32, rs2: 2 },
        Instruction::Add { rd: 1, rs1: 2, rs2: 32 },
        Instruction::Addi { rd: 1, rs1: 99, imm: 0 },
        Instruction::Lw { rd: 40, rs1: 0, offset: 0 },
        Instruction::Lw { rd: 40, rs1: 0, offset: 2000 },
        Instruction::Sw { rs1: 0, rs2: 32, offset: 0 },
        Instruction::Jalr { rd: 255, rs1: 1, offset: 4 },
        Instruction::Jal { rd: 32, offset: 4 },
        Instruction::Beq { rs1: 32, rs2: 0, offset: 4 },
        Instruction::Lui { rd: usize::MAX, imm: 0x1000 },
    ] {
        let mut cpu = ready(&[(1, 8), (2, 9)], 4);
        let res = cpu.execute(instruction, &mut ram, &mut devices);
        assert_eq!(res, Err(EmulatorError::RegisterIndex));
        assert_eq!(cpu.state, CpuState::Execute);
        assert_eq!(cpu.pc.load(), 4);
        assert_eq!(x(&cpu, 1), 8);
        assert_eq!(x(&cpu, 2), 9);
        assert_eq!(cpu.plan(instruction), Err(EmulatorError::RegisterIndex));
    }
    assert_eq!(ram.0, vec![0; 16]);
}

#[test]
fn traps_are_fatal() {
    let mut ram = Ram::new(16);
    let mut devices: Vec<MmioDevice> = Vec::new();
    for (instruction, error) in [
        (Instruction::Ecall, EmulatorError::Ecall),
        (Instruction::Ebreak, EmulatorError::Ebreak),
        (Instruction::Fence { pred: 3, succ: 1 }, EmulatorError::Fence { pred: 3, succ: 1 }),
    ] {
        let mut cpu = ready(&[], 8);
        assert_eq!(cpu.execute(instruction, &mut ram, &mut devices), Err(error));
        assert_eq!(cpu.state, CpuState::Execute);
        assert_eq!(cpu.pc.load(), 8);
        assert_eq!(error.kind(), ErrorKind::UnsupportedTrap);
    }
}

#[test]
fn errors_fall_into_families() {
    assert_eq!(EmulatorError::Decode.kind(), ErrorKind::Decode);
    assert_eq!(EmulatorError::Protocol { requested: CpuState::Fetch }.kind(), ErrorKind::Protocol);
    assert_eq!(EmulatorError::PcOutOfBounds.kind(), ErrorKind::Bounds);
    assert_eq!(EmulatorError::RegisterIndex.kind(), ErrorKind::Bounds);
    assert_eq!(EmulatorError::MemoryOutOfBounds.kind(), ErrorKind::Bounds);
    assert_eq!(EmulatorError::StepLimit.kind(), ErrorKind::Bounds);
    assert_eq!(EmulatorError::Ecall.kind(), ErrorKind::UnsupportedTrap);
    assert_eq!(EmulatorError::Ebreak.kind(), ErrorKind::UnsupportedTrap);
    assert_eq!(EmulatorError::Fence { pred: 0, succ: 0 }.kind(), ErrorKind::UnsupportedTrap);
}

#[test]
fn add_and_sub_wrap() {
    let cpu = run_one(&[(1, 0xffff_ffff), (2, 2)], 0, Instruction::Add { rd: 3, rs1: 1, rs2: 2 });
    assert_eq!(x(&cpu, 3), 1);
    let cpu = run_one(&[(1, 0x8000_0000), (2, 0x8000_0000)], 0, Instruction::Add { rd: 3, rs1: 1, rs2: 2 });
    assert_eq!(x(&cpu, 3), 0);
    let cpu = run_one(&[(1, 1), (2, 2)], 0, Instruction::Sub { rd: 3, rs1: 1, rs2: 2 });
    assert_eq!(x(&cpu, 3), 0xffff_ffff);
    let cpu = run_one(&[(1, 0), (2, 0x8000_0000)], 0, Instruction::Sub { rd: 3, rs1: 1, rs2: 2 });
    assert_eq!(x(&cpu, 3), 0x8000_0000);
    let cpu = run_one(&[(1, 0x7fff_ffff)], 0, Instruction::Addi { rd: 1, rs1: 1, imm: 1 });
    assert_eq!(x(&cpu, 1), 0x8000_0000);
    let cpu = run_one(&[(1, 0)], 0, Instruction::Addi { rd: 1, rs1: 1, imm: -2048 });
    assert_eq!(x(&cpu, 1), 0xffff_f800);
    let cpu = run_one(&[(1, 5)], 0x7c, Instruction::Addi { rd: 2, rs1: 1, imm: -7 });
    assert_eq!(x(&cpu, 2) as i32, -2);
    assert_eq!(x(&cpu, 1), 5);
    assert_eq!(cpu.pc.load(), 0x80);
}

#[test]
fn bitwise_operations() {
    let regs = [(1, 0xf0f0_1234), (2, 0x0ff0_00ff)];
    assert_eq!(x(&run_one(&regs, 0, Instruction::And { rd: 3, rs1: 1, rs2: 2 }), 3), 0x00f0_0034);
    assert_eq!(x(&run_one(&regs, 0, Instruction::Or { rd: 3, rs1: 1, rs2: 2 }), 3), 0xfff0_12ff);
    assert_eq!(x(&run_one(&regs, 0, Instruction::Xor { rd: 3, rs1: 1, rs2: 2 }), 3), 0xff00_12cb);
    // the immediate is sign-extended
    assert_eq!(x(&run_one(&regs, 0, Instruction::Andi { rd: 3, rs1: 1, imm: -16 }), 3), 0xf0f0_1230);
    assert_eq!(x(&run_one(&regs, 0, Instruction::Andi { rd: 3, rs1: 1, imm: 0xff }), 3), 0x34);
    assert_eq!(x(&run_one(&regs, 0, Instruction::Ori { rd: 3, rs1: 1, imm: -256 }), 3), 0xffff_ff34);
    assert_eq!(x(&run_one(&regs, 0, Instruction::Xori { rd: 3, rs1: 1, imm: -1 }), 3), 0x0f0f_edcb);
}

#[test]
fn logical_shifts_use_five_bits_of_the_amount() {
    let regs = [(1, 0x8000_0001), (2, 4), (3, 36), (4, 31), (5, 32)];
    assert_eq!(x(&run_one(&regs, 0, Instruction::Sll { rd: 9, rs1: 1, rs2: 2 }), 9), 0x0000_0010);
    assert_eq!(x(&run_one(&regs, 0, Instruction::Sll { rd: 9, rs1: 1, rs2: 3 }), 9), 0x0000_0010);
    assert_eq!(x(&run_one(&regs, 0, Instruction::Sll { rd: 9, rs1: 1, rs2: 4 }), 9), 0x8000_0000);
    assert_eq!(x(&run_one(&regs, 0, Instruction::Sll { rd: 9, rs1: 1, rs2: 5 }), 9), 0x8000_0001);
    assert_eq!(x(&run_one(&regs, 0, Instruction::Srl { rd: 9, rs1: 1, rs2: 2 }), 9), 0x0800_0000);
    assert_eq!(x(&run_one(&regs, 0, Instruction::Srl { rd: 9, rs1: 1, rs2: 3 }), 9), 0x0800_0000);
    assert_eq!(x(&run_one(&regs, 0, Instruction::Srl { rd: 9, rs1: 1, rs2: 4 }), 9), 1);
    assert_eq!(x(&run_one(&regs, 0, Instruction::Slli { rd: 9, rs1: 1, shamt: 1 }), 9), 2);
    assert_eq!(x(&run_one(&regs, 0, Instruction::Slli { rd: 9, rs1: 1, shamt: 33 }), 9), 2);
    assert_eq!(x(&run_one(&regs, 0, Instruction::Srli { rd: 9, rs1: 1, shamt: 1 }), 9), 0x4000_0000);
    assert_eq!(x(&run_one(&regs, 0, Instruction::Srli { rd: 9, rs1: 1, shamt: 0 }), 9), 0x8000_0001);
}

#[test]
fn arithmetic_shifts_keep_the_sign() {
    for shift in 0..32u32 {
        for value in [-1i32, -2, -1000, i32::MIN, i32::MIN + 1, -0x1234_5678, 0, 1, 1000, i32::MAX, 0x1234_5678] {
            let expected = (value >> shift) as u32;
            let regs = [(1, value as u32), (2, shift), (3, shift + 32)];
            assert_eq!(x(&run_one(&regs, 0, Instruction::Sra { rd: 9, rs1: 1, rs2: 2 }), 9), expected);
            assert_eq!(x(&run_one(&regs, 0, Instruction::Sra { rd: 9, rs1: 1, rs2: 3 }), 9), expected);
            assert_eq!(
                x(&run_one(&regs, 0, Instruction::Srai { rd: 9, rs1: 1, shamt: shift as u8 }), 9),
                expected
            );
            assert_eq!(word::arithmetic_shift(value as u32, shift), expected);
        }
    }
    assert_eq!(
        x(&run_one(&[(1, 0x8000_0000)], 0, Instruction::Srai { rd: 9, rs1: 1, shamt: 4 }), 9),
        0xf800_0000
    );
    assert_eq!(
        x(&run_one(&[(1, 0x8000_0000)], 0, Instruction::Srai { rd: 9, rs1: 1, shamt: 31 }), 9),
        0xffff_ffff
    );
}

#[test]
fn slt_is_signed_and_sltu_is_unsigned() {
    let values = [0u32, 1, 2, 123, 0x7fff_ffff, 0x8000_0000, 0x8000_0001, 0xffff_fffe, 0xffff_ffff];
    for a in values {
        for b in values {
            let regs = [(1, a), (2, b)];
            assert_eq!(
                x(&run_one(&regs, 0, Instruction::Slt { rd: 3, rs1: 1, rs2: 2 }), 3),
                ((a as i32) < (b as i32)) as u32
            );
            assert_eq!(
                x(&run_one(&regs, 0, Instruction::Sltu { rd: 3, rs1: 1, rs2: 2 }), 3),
                (a < b) as u32
            );
            assert_eq!(word::less_than(a, b), ((a as i32) < (b as i32)) as u32);
            assert_eq!(word::less_than_unsigned(a, b), (a < b) as u32);
        }
    }
}

#[test]
fn slti_takes_a_signed_immediate_and_sltiu_an_unsigned_one() {
    let cases: [(u32, i16, u32); 6] = [
        (0, 1, 1),
        (1, 1, 0),
        (0xffff_ffff, 0, 1),
        (0xffff_ffff, -1, 0),
        (0xffff_fffe, -1, 1),
        (5, -2048, 0),
    ];
    for (value, imm, expected) in cases {
        assert_eq!(x(&run_one(&[(1, value)], 0, Instruction::Slti { rd: 3, rs1: 1, imm }), 3), expected);
    }
    let cases: [(u32, u16, u32); 7] = [
        (0, 0, 0),
        (1, 0, 0),
        (0xffff_ffff, 0, 0),
        (0, 1, 1),
        (0xffe, 0xfff, 1),
        (0xfff, 0xfff, 0),
        (0xffff_ffff, 0xfff, 0),
    ];
    for (value, imm, expected) in cases {
        assert_eq!(x(&run_one(&[(1, value)], 0, Instruction::Sltiu { rd: 3, rs1: 1, imm }), 3), expected);
    }
}

#[test]
fn lui_and_auipc() {
    let cpu = run_one(&[], 0x100, Instruction::Lui { rd: 5, imm: 0xabcd_e000 });
    assert_eq!(x(&cpu, 5), 0xabcd_e000);
    assert_eq!(cpu.pc.load(), 0x104);
    let cpu = run_one(&[], 0x100, Instruction::Auipc { rd: 5, imm: 0x1234_5000 });
    assert_eq!(x(&cpu, 5), 0x1234_5100);
    assert_eq!(cpu.pc.load(), 0x104);
    let cpu = run_one(&[], 0x2000, Instruction::Auipc { rd: 5, imm: 0xffff_f000 });
    assert_eq!(x(&cpu, 5), 0x1000);
}

#[test]
fn jal_links_and_jumps() {
    let cpu = run_one(&[], 0x40, Instruction::Jal { rd: 1, offset: 128 });
    assert_eq!(x(&cpu, 1), 0x44);
    assert_eq!(cpu.pc.load(), 0xc0);
    let cpu = run_one(&[], 0x40, Instruction::Jal { rd: 1, offset: -64 });
    assert_eq!(x(&cpu, 1), 0x44);
    assert_eq!(cpu.pc.load(), 0);
    let cpu = run_one(&[], 0x10, Instruction::Jal { rd: 1, offset: -0x20 });
    assert_eq!(cpu.pc.load(), 0xffff_fff0);
    let cpu = run_one(&[], 0xffff_fffc, Instruction::Jal { rd: 1, offset: 8 });
    assert_eq!(x(&cpu, 1), 0);
    assert_eq!(cpu.pc.load(), 4);
}

#[test]
fn jalr_clears_the_low_bit_of_its_target() {
    let cpu = run_one(&[(5, 0x81)], 0x40, Instruction::Jalr { rd: 1, rs1: 5, offset: 4 });
    assert_eq!(x(&cpu, 1), 0x44);
    assert_eq!(cpu.pc.load(), 0x84);
    let cpu = run_one(&[(5, 0x80)], 0x40, Instruction::Jalr { rd: 1, rs1: 5, offset: -3 });
    assert_eq!(cpu.pc.load(), 0x7c);
    // the base is read before the link is written
    let cpu = run_one(&[(5, 0x80)], 0x40, Instruction::Jalr { rd: 5, rs1: 5, offset: 0 });
    assert_eq!(x(&cpu, 5), 0x44);
    assert_eq!(cpu.pc.load(), 0x80);
    let cpu = run_one(&[(5, 1)], 0x40, Instruction::Jalr { rd: 0, rs1: 5, offset: -2 });
    assert_eq!(cpu.pc.load(), 0xffff_fffe);
}

#[test]
fn branches_compare_signed_or_unsigned() {
    let neg = 0xffff_ffffu32;
    // (rs1, rs2, beq, bne, blt, bge, bltu, bgeu)
    let cases = [
        (1u32, 1u32, true, false, false, true, false, true),
        (1, 2, false, true, true, false, true, false),
        (2, 1, false, true, false, true, false, true),
        (neg, 1, false, true, true, false, false, true),
        (1, neg, false, true, false, true, true, false),
        (0x8000_0000, 0x7fff_ffff, false, true, true, false, false, true),
    ];
    for (a, b, beq, bne, blt, bge, bltu, bgeu) in cases {
        let regs = [(1, a), (2, b)];
        let target = |taken: bool| if taken { 0x100 - 16 } else { 0x104 };
        let offset = -16;
        assert_eq!(run_one(&regs, 0x100, Instruction::Beq { rs1: 1, rs2: 2, offset }).pc.load(), target(beq));
        assert_eq!(run_one(&regs, 0x100, Instruction::Bne { rs1: 1, rs2: 2, offset }).pc.load(), target(bne));
        assert_eq!(run_one(&regs, 0x100, Instruction::Blt { rs1: 1, rs2: 2, offset }).pc.load(), target(blt));
        assert_eq!(run_one(&regs, 0x100, Instruction::Bge { rs1: 1, rs2: 2, offset }).pc.load(), target(bge));
        assert_eq!(run_one(&regs, 0x100, Instruction::Bltu { rs1: 1, rs2: 2, offset }).pc.load(), target(bltu));
        assert_eq!(run_one(&regs, 0x100, Instruction::Bgeu { rs1: 1, rs2: 2, offset }).pc.load(), target(bgeu));
    }
}

#[test]
fn a_branch_wraps_round_the_address_space() {
    let cpu = run_one(&[], 8, Instruction::Beq { rs1: 0, rs2: 0, offset: -4096 });
    assert_eq!(cpu.pc.load(), 0xffff_f008);
    let cpu = run_one(&[], 0xffff_fffc, Instruction::Beq { rs1: 0, rs2: 0, offset: 4094 });
    assert_eq!(cpu.pc.load(), 0xffa);
    let cpu = run_one(&[], 0xffff_fffc, Instruction::Bne { rs1: 0, rs2: 0, offset: 4094 });
    assert_eq!(cpu.pc.load(), 0);
}

#[test]
fn an_even_program_counter_stays_even() {
    let mut ram = Ram::new(64);
    let mut devices: Vec<MmioDevice> = Vec::new();
    let instructions = [
        Instruction::Addi { rd: 1, rs1: 1, imm: 3 },
        Instruction::Jal { rd: 1, offset: 0x7fe },
        Instruction::Jal { rd: 1, offset: -2 },
        Instruction::Jalr { rd: 1, rs1: 5, offset: 3 },
        Instruction::Jalr { rd: 1, rs1: 6, offset: 0 },
        Instruction::Beq { rs1: 0, rs2: 0, offset: -2 },
        Instruction::Bne { rs1: 0, rs2: 0, offset: -2 },
        Instruction::Bltu { rs1: 0, rs2: 5, offset: 4094 },
        Instruction::Lw { rd: 2, rs1: 0, offset: 1 },
        Instruction::Sw { rs1: 0, rs2: 5, offset: 3 },
        Instruction::Auipc { rd: 3, imm: 0x1000 },
    ];
    for pc in [0u32, 2, 6, 0x1000, 0xffff_fffe, 0xffff_fffc] {
        for instruction in instructions {
            let mut cpu = ready(&[(5, 0x21), (6, 0xffff_ffff)], pc);
            cpu.execute(instruction, &mut ram, &mut devices).unwrap();
            assert_eq!(cpu.pc.load() % 2, 0, "{:?} at {:#x}", instruction, pc);
        }
    }
}

#[test]
fn loads_extend_by_sign_or_by_zeros() {
    let mut ram = Ram::new_with_data(vec![0x80, 0xff, 0x7f, 0x00, 0x34, 0x12, 0xcd, 0xab]);
    let mut devices: Vec<MmioDevice> = Vec::new();
    let cases = [
        (Instruction::Lb { rd: 3, rs1: 1, offset: 0 }, 0xffff_ff80u32),
        (Instruction::Lbu { rd: 3, rs1: 1, offset: 0 }, 0x80),
        (Instruction::Lb { rd: 3, rs1: 1, offset: 2 }, 0x7f),
        (Instruction::Lbu { rd: 3, rs1: 1, offset: 1 }, 0xff),
        (Instruction::Lh { rd: 3, rs1: 1, offset: 0 }, 0xffff_ff80),
        (Instruction::Lhu { rd: 3, rs1: 1, offset: 0 }, 0xff80),
        (Instruction::Lh { rd: 3, rs1: 1, offset: 4 }, 0x1234),
        (Instruction::Lhu { rd: 3, rs1: 1, offset: 4 }, 0x1234),
        (Instruction::Lh { rd: 3, rs1: 1, offset: 6 }, 0xffff_abcd),
        (Instruction::Lhu { rd: 3, rs1: 1, offset: 6 }, 0xabcd),
        (Instruction::Lw { rd: 3, rs1: 1, offset: 4 }, 0xabcd_1234),
        (Instruction::Lw { rd: 3, rs1: 1, offset: 0 }, 0x007f_ff80),
        // an unaligned word
        (Instruction::Lw { rd: 3, rs1: 1, offset: 1 }, 0x3400_7fff),
        (Instruction::Lh { rd: 3, rs1: 1, offset: 1 }, 0x7fff),
    ];
    for (instruction, expected) in cases {
        let mut cpu = ready(&[(1, 0)], 0);
        let writes = cpu.execute(instruction, &mut ram, &mut devices).unwrap();
        assert!(writes.is_empty());
        assert_eq!(x(&cpu, 3), expected, "{:?}", instruction);
        assert_eq!(cpu.pc.load(), 4);
    }
    // the address is the base plus the offset, modulo 2^32
    let mut cpu = ready(&[(1, 0x10)], 0);
    cpu.execute(Instruction::Lbu { rd: 3, rs1: 1, offset: -15 }, &mut ram, &mut devices).unwrap();
    assert_eq!(x(&cpu, 3), 0xff);
    let mut cpu = ready(&[(1, 0xffff_ffff)], 0);
    cpu.execute(Instruction::Lbu { rd: 3, rs1: 1, offset: 3 }, &mut ram, &mut devices).unwrap();
    assert_eq!(x(&cpu, 3), 0x7f);
}

#[test]
fn sign_extension_of_bytes_and_halfwords() {
    assert_eq!(word::extend_byte(0x00), 0);
    assert_eq!(word::extend_byte(0x7f), 0x7f);
    assert_eq!(word::extend_byte(0x80), 0xffff_ff80);
    assert_eq!(word::extend_byte(0xff), 0xffff_ffff);
    assert_eq!(word::extend_half(0x7fff), 0x7fff);
    assert_eq!(word::extend_half(0x8000), 0xffff_8000);
    assert_eq!(word::extend_half(0xffff), 0xffff_ffff);
    for byte in 0..=255u8 {
        assert_eq!(word::extend_byte(byte) as i32, byte as i8 as i32);
    }
}

#[test]
fn stores_write_the_low_bytes_and_leave_a_trace() {
    let value = 0xa1b2_c3d4u32;
    let mut devices: Vec<MmioDevice> = Vec::new();

    let mut ram = Ram::new(16);
    let mut cpu = ready(&[(1, 8), (2, value)], 0x20);
    let writes = cpu.execute(Instruction::Sb { rs1: 1, rs2: 2, offset: -3 }, &mut ram, &mut devices).unwrap();
    assert_eq!(writes, vec![RamWrite::new(5, 0xd4)]);
    assert_eq!(ram.0, vec![0, 0, 0, 0, 0, 0xd4, 0, 0, 0, 0, 0, 0, 0, 0, 0, 0]);
    assert_eq!(cpu.pc.load(), 0x24);

    let mut ram = Ram::new(16);
    let mut cpu = ready(&[(1, 8), (2, value)], 0x20);
    let writes = cpu.execute(Instruction::Sh { rs1: 1, rs2: 2, offset: 1 }, &mut ram, &mut devices).unwrap();
    assert_eq!(writes, vec![RamWrite::new(9, 0xd4), RamWrite::new(10, 0xc3)]);
    assert_eq!(ram.0, vec![0, 0, 0, 0, 0, 0, 0, 0, 0, 0xd4, 0xc3, 0, 0, 0, 0, 0]);

    let mut ram = Ram::new(16);
    let mut cpu = ready(&[(1, 8), (2, value)], 0x20);
    let writes = cpu.execute(Instruction::Sw { rs1: 1, rs2: 2, offset: 4 }, &mut ram, &mut devices).unwrap();
    assert_eq!(
        writes,
        vec![
            RamWrite::new(12, 0xd4),
            RamWrite::new(13, 0xc3),
            RamWrite::new(14, 0xb2),
            RamWrite::new(15, 0xa1)
        ]
    );
    assert_eq!(ram.0, vec![0, 0, 0, 0, 0, 0, 0, 0, 0, 0, 0, 0, 0xd4, 0xc3, 0xb2, 0xa1]);
    assert_eq!(x(&cpu, 2), value);
}

#[test]
fn a_store_to_a_device_leaves_no_trace() {
    let mut ram = Ram::new(0x400);
    let mut devices = vec![
        MmioDevice::DebugExit(DebugExit::default()),
        MmioDevice::SimpleUart(SimpleUart::default()),
    ];
    let mut cpu = ready(&[(1, 0xf0), (2, 0x1234_56ae)], 0);
    let writes = cpu.execute(Instruction::Sb { rs1: 1, rs2: 2, offset: 4 }, &mut ram, &mut devices).unwrap();
    assert!(writes.is_empty());
    assert_eq!(cpu.pc.load(), 4);
    assert_eq!(devices[0].poll_request(), Some(RequestFromDevice::Exit(0xae)));

    let mut cpu = ready(&[(1, 0x3f8), (2, 0x41)], 0);
    let writes = cpu.execute(Instruction::Sb { rs1: 1, rs2: 2, offset: 0 }, &mut ram, &mut devices).unwrap();
    assert!(writes.is_empty());
    let mut cpu = ready(&[(1, 0x3f8), (2, 0x4243)], 0);
    let writes = cpu.execute(Instruction::Sh { rs1: 1, rs2: 2, offset: 0 }, &mut ram, &mut devices).unwrap();
    assert!(writes.is_empty());
    let mut cpu = ready(&[(1, 0x3f8), (2, 0x4243)], 0);
    let writes = cpu.execute(Instruction::Sw { rs1: 1, rs2: 2, offset: 0 }, &mut ram, &mut devices).unwrap();
    assert!(writes.is_empty());
    assert_eq!(devices[1].take_transmitted(), vec![0x41]);
    assert_eq!(ram.0, vec![0; 0x400]);

    // a load from a device brings 0
    ram.store8(0xf4, 0x99);
    let mut cpu = ready(&[(1, 0xf4), (3, 7)], 0);
    cpu.execute(Instruction::Lb { rd: 3, rs1: 1, offset: 0 }, &mut ram, &mut devices).unwrap();
    assert_eq!(x(&cpu, 3), 0);
}

#[test]
fn an_access_outside_ram_fails() {
    let mut ram = Ram::new(16);
    let mut devices: Vec<MmioDevice> = Vec::new();
    for instruction in [
        Instruction::Lb { rd: 3, rs1: 1, offset: 0 },
        Instruction::Lbu { rd: 3, rs1: 0, offset: -1 },
        Instruction::Lh { rd: 3, rs1: 1, offset: -1 },
        Instruction::Lhu { rd: 3, rs1: 1, offset: 100 },
        Instruction::Lw { rd: 3, rs1: 1, offset: -3 },
        Instruction::Sb { rs1: 1, rs2: 2, offset: 0 },
        Instruction::Sh { rs1: 1, rs2: 2, offset: -1 },
        Instruction::Sw { rs1: 1, rs2: 2, offset: -3 },
        Instruction::Sw { rs1: 0, rs2: 2, offset: -4 },
    ] {
        let mut cpu = ready(&[(1, 16), (2, 0xffff_ffff), (3, 7)], 8);
        let res = cpu.execute(instruction, &mut ram, &mut devices);
        assert_eq!(res, Err(EmulatorError::MemoryOutOfBounds), "{:?}", instruction);
        assert_eq!(cpu.state, CpuState::Execute);
        assert_eq!(cpu.pc.load(), 8);
        assert_eq!(x(&cpu, 3), 7);
    }
    assert_eq!(ram.0, vec![0; 16]);
    // the last bytes of RAM can be reached
    let mut cpu = ready(&[(1, 16), (2, 0xffff_ffff)], 8);
    cpu.execute(Instruction::Sw { rs1: 1, rs2: 2, offset: -4 }, &mut ram, &mut devices).unwrap();
    assert_eq!(ram.load32(12), 0xffff_ffff);
}

#[test]
fn plan_says_what_an_operation_asks_for() {
    let cpu = ready(&[(1, 10), (2, 3)], 0x40);
    assert_eq!(
        cpu.plan(Instruction::Sub { rd: 3, rs1: 1, rs2: 2 }),
        Ok(Action::Write { rd: 3, value: 7, next_pc: 0x44 })
    );
    assert_eq!(
        cpu.plan(Instruction::Jal { rd: 1, offset: -8 }),
        Ok(Action::Write { rd: 1, value: 0x44, next_pc: 0x38 })
    );
    assert_eq!(
        cpu.plan(Instruction::Blt { rs1: 2, rs2: 1, offset: 12 }),
        Ok(Action::Jump { next_pc: 0x4c })
    );
    assert_eq!(
        cpu.plan(Instruction::Bge { rs1: 2, rs2: 1, offset: 12 }),
        Ok(Action::Jump { next_pc: 0x44 })
    );
    assert_eq!(
        cpu.plan(Instruction::Lh { rd: 4, rs1: 1, offset: -2 }),
        Ok(Action::Load { rd: 4, addr: 8, width: Width::Half, signed: true })
    );
    assert_eq!(
        cpu.plan(Instruction::Lbu { rd: 4, rs1: 1, offset: 2 }),
        Ok(Action::Load { rd: 4, addr: 12, width: Width::Byte, signed: false })
    );
    assert_eq!(
        cpu.plan(Instruction::Sw { rs1: 1, rs2: 2, offset: 6 }),
        Ok(Action::Store { addr: 16, width: Width::Word, value: 3 })
    );
    assert_eq!(cpu.plan(Instruction::Ecall), Ok(Action::Trap { error: EmulatorError::Ecall }));
    assert!(Instruction::Sw { rs1: 31, rs2: 0, offset: 0 }.registers_in_range());
    assert!(!Instruction::Sw { rs1: 32, rs2: 0, offset: 0 }.registers_in_range());
    assert!(Instruction::Ebreak.registers_in_range());
}

#[test]
fn word_arithmetic() {
    assert_eq!(word::wrapping_sum(0xffff_ffff, 1), 0);
    assert_eq!(word::wrapping_difference(0, 1), 0xffff_ffff);
    assert_eq!(word::offset_address(0x10, -0x11), 0xffff_ffff);
    assert_eq!(word::offset_address(0xffff_fff0, 0x20), 0x10);
    assert_eq!(word::offset_address(5, i32::MIN), 0x8000_0005);
    assert_eq!(word::immediate_word(-1), 0xffff_ffff);
    assert_eq!(word::immediate_word(-2048), 0xffff_f800);
    assert_eq!(word::immediate_word(2047), 0x7ff);
    assert_eq!(word::to_signed(0xffff_ffff), -1);
    assert_eq!(word::to_signed(0x8000_0000), i32::MIN);
    assert_eq!(word::to_signed(0x7fff_ffff), i32::MAX);
    assert_eq!(word::from_signed(-2), 0xffff_fffe);
    assert_eq!(word::shift_amount(0xffff_ffe5), 5);
    assert_eq!(word::shift_amount(32), 0);
    assert_eq!(word::clear_low_bit(0xffff_ffff), 0xffff_fffe);
    assert_eq!(word::clear_low_bit(8), 8);
    assert_eq!(word::low_byte(0x1234_5678), 0x78);
    assert_eq!(word::low_half(0x1234_5678), 0x5678);
    assert_eq!(word::byte_at(0x1234_5678, 0), 0x78);
    assert_eq!(word::byte_at(0x1234_5678, 1), 0x56);
    assert_eq!(word::byte_at(0x1234_5678, 2), 0x34);
    assert_eq!(word::byte_at(0x1234_5678, 3), 0x12);
}

#[test]
fn a_step_fetches_decodes_executes_and_counts() {
    let mut ram = Ram::new_with_data(vec![
        0x93, 0x00, 0x70, 0xfe, // ADDI x1, x0, -25
        0x23, 0x20, 0x10, 0x00, // SW x1, 0(x0)
    ]);
    let mut devices: Vec<MmioDevice> = Vec::new();
    let mut cpu = Cpu::default();
    let step = cpu.fetch_decode_execute(&mut ram, &mut devices).unwrap();
    assert_eq!(step.step, 0);
    assert_eq!(step.fetched_instruction, 0xfe700093);
    assert_eq!(step.decoded_instruction, Instruction::Addi { rd: 1, rs1: 0, imm: -25 });
    assert_eq!(step.cpu_state, CpuStateLog::new(&cpu));
    assert_eq!(step.cpu_state.ra, 0xffff_ffe7);
    assert_eq!(step.cpu_state.zero, 0);
    assert_eq!(step.cpu_state.pc, 4);
    assert_eq!(step.cpu_state.state, CpuState::Execute);
    assert!(step.ram_writes.is_empty());
    assert_eq!(cpu.step, 1);

    let step = cpu.fetch_decode_execute(&mut ram, &mut devices).unwrap();
    assert_eq!(step.step, 1);
    assert_eq!(step.fetched_instruction, 0x00102023);
    assert_eq!(step.decoded_instruction, Instruction::Sw { rs1: 0, rs2: 1, offset: 0 });
    assert_eq!(
        step.ram_writes,
        vec![RamWrite::new(0, 0xe7), RamWrite::new(1, 0xff), RamWrite::new(2, 0xff), RamWrite::new(3, 0xff)]
    );
    assert_eq!(step.cpu_state.pc, 8);
    assert_eq!(cpu.step, 2);

    // the program counter has left RAM
    let res = cpu.fetch_decode_execute(&mut ram, &mut devices);
    assert_eq!(res.err(), Some(EmulatorError::PcOutOfBounds));
    assert_eq!(cpu.step, 2);
    assert_eq!(cpu.state, CpuState::Fetch);
    // and the CPU cannot fetch again without a reset
    let res = cpu.fetch_decode_execute(&mut ram, &mut devices);
    assert_eq!(res.err(), Some(EmulatorError::Protocol { requested: CpuState::Fetch }));
}

#[test]
fn a_step_that_cannot_be_counted_fails() {
    let mut ram = Ram::new_with_data(vec![0x93, 0x80, 0x10, 0x00]);
    let mut devices: Vec<MmioDevice> = Vec::new();
    let mut cpu = Cpu::default();
    cpu.step = usize::MAX;
    let res = cpu.fetch_decode_execute(&mut ram, &mut devices);
    assert_eq!(res.err(), Some(EmulatorError::StepLimit));
    assert_eq!(cpu.state, CpuState::Reset);
    assert_eq!(cpu.pc.load(), 0);
    assert_eq!(x(&cpu, 1), 0);

    cpu.step = usize::MAX - 1;
    let step = cpu.fetch_decode_execute(&mut ram, &mut devices).unwrap();
    assert_eq!(step.step, usize::MAX - 1);
    assert_eq!(cpu.step, usize::MAX);
}

#[test]
fn a_snapshot_names_the_registers() {
    let mut cpu = Cpu::default();
    for index in 0..32 {
        cpu.x_regs[index].store(100 + index as u32);
    }
    cpu.pc.store(0x1234);
    cpu.state = CpuState::Decode;
    let log = CpuStateLog::new(&cpu);
    let named = [
        log.zero, log.ra, log.sp, log.gp, log.tp, log.t0, log.t1, log.t2, log.s0, log.s1, log.a0,
        log.a1, log.a2, log.a3, log.a4, log.a5, log.a6, log.a7, log.s2, log.s3, log.s4, log.s5,
        log.s6, log.s7, log.s8, log.s9, log.s10, log.s11, log.t3, log.t4, log.t5, log.t6,
    ];
    for index in 0..32 {
        assert_eq!(named[index], 100 + index as u32);
    }
    assert_eq!(log.pc, 0x1234);
    assert_eq!(log.state, CpuState::Decode);
}
